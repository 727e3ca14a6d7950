//! `Set-Cookie` values: a cookie with its attributes, and a jar of cookies.
use vstd::prelude::*;
use vstd::string::*;
use crate::text::decimal;
use crate::text::push_decimal;

verus! {

/// A cookie to be sent with `Set-Cookie`. `expires` holds the RFC 7231
/// rendering of the expiry moment (e.g. `Sun, 06 Nov 1994 08:49:37 GMT`).
#[derive(Debug)]
pub struct Cookie {
    pub name: String,
    pub value: String,
    pub expires: Option<String>,
    pub max_age: Option<u64>,
    pub domain: Option<String>,
    pub path: Option<String>,
    pub http_only: bool,
    pub partitioned: bool,
    pub secure: bool,
    pub same_site: bool,
}

/// The abstract value of an optional string.
pub open spec fn opt_str(o: Option<String>) -> Option<Seq<char>> {
    match o {
        Some(s) => Some(s@),
        None => None,
    }
}

/// The abstract value of a [`Cookie`].
pub struct CookieModel {
    pub name: Seq<char>,
    pub value: Seq<char>,
    pub expires: Option<Seq<char>>,
    pub max_age: Option<u64>,
    pub domain: Option<Seq<char>>,
    pub path: Option<Seq<char>>,
    pub http_only: bool,
    pub partitioned: bool,
    pub secure: bool,
    pub same_site: bool,
}

impl View for Cookie {
    type V = CookieModel;

    open spec fn view(&self) -> CookieModel {
        CookieModel {
            name: self.name@,
            value: self.value@,
            expires: opt_str(self.expires),
            max_age: self.max_age,
            domain: opt_str(self.domain),
            path: opt_str(self.path),
            http_only: self.http_only,
            partitioned: self.partitioned,
            secure: self.secure,
            same_site: self.same_site,
        }
    }
}

/// `"; name=value"`.
pub open spec fn element(name: Seq<char>, value: Seq<char>) -> Seq<char> {
    "; "@ + name + "="@ + value
}

/// The `Set-Cookie` header value of a cookie: `name=value` followed by its
/// attributes in a fixed order.
pub open spec fn cookie_text(c: CookieModel) -> Seq<char> {
    let t0 = c.name + "="@ + c.value;
    let t1 = match c.path {
        Some(p) => t0 + element("Path"@, p),
        None => t0,
    };
    let t2 = match c.expires {
        Some(e) => t1 + element("Expires"@, e),
        None => t1,
    };
    let t3 = match c.max_age {
        Some(m) => t2 + element("Max-Age"@, decimal(m as nat)),
        None => t2,
    };
    let t4 = match c.domain {
        Some(d) => t3 + element("Domain"@, d),
        None => t3,
    };
    let t5 = if c.http_only { t4 + "; "@ + "HttpOnly"@ } else { t4 };
    let t6 = if c.partitioned { t5 + "; "@ + "Partitioned"@ } else { t5 };
    let t7 = if c.secure { t6 + "; "@ + "Secure"@ } else { t6 };
    if c.same_site { t7 + element("Samesite"@, "None"@) } else { t7 }
}

/// Appends `"; name=value"` to `result`.
pub fn add_element(result: &mut String, name: &str, value: &str)
    ensures
        final(result)@ == old(result)@ + element(name@, value@),
{
    result.append("; ");
    result.append(name);
    result.append("=");
    result.append(value);
    assert(final(result)@ =~= old(result)@ + element(name@, value@));
}

/// Appends `"; name"` to `result`.
pub fn add_empty_element(result: &mut String, name: &str)
    ensures
        final(result)@ == old(result)@ + "; "@ + name@,
{
    result.append("; ");
    result.append(name);
}

impl Cookie {
    /// A session cookie with no attributes.
    pub fn new(name: String, value: String) -> (r: Self)
        ensures
            r@ == (CookieModel {
                name: name@,
                value: value@,
                expires: None,
                max_age: None,
                domain: None,
                path: None,
                http_only: false,
                partitioned: false,
                secure: false,
                same_site: false,
            }),
    {
        Cookie {
            name,
            value,
            expires: None,
            max_age: None,
            domain: None,
            path: None,
            http_only: false,
            partitioned: false,
            secure: false,
            same_site: false,
        }
    }

    /// A cookie scoped to `domain` and the root path, expiring at `expiration`,
    /// sent only over HTTPS, hidden from scripts and allowed cross-site.
    pub fn new_common_case(name: String, value: String, domain: String, expiration: String) -> (r: Self)
        ensures
            r@ == (CookieModel {
                name: name@,
                value: value@,
                expires: Some(expiration@),
                max_age: None,
                domain: Some(domain@),
                path: Some("/"@),
                http_only: true,
                partitioned: false,
                secure: true,
                same_site: true,
            }),
    {
        Cookie {
            name,
            value,
            expires: Some(expiration),
            max_age: None,
            domain: Some(domain),
            path: Some(String::from_str("/")),
            http_only: true,
            partitioned: false,
            secure: true,
            same_site: true,
        }
    }

    pub fn set_expires_at(self, expires_at: String) -> (r: Self)
        ensures
            r@ == (CookieModel { expires: Some(expires_at@), ..self@ }),
    {
        let mut s = self;
        s.expires = Some(expires_at);
        s
    }

    pub fn set_max_age(self, max_age: u64) -> (r: Self)
        ensures
            r@ == (CookieModel { max_age: Some(max_age), ..self@ }),
    {
        let mut s = self;
        s.max_age = Some(max_age);
        s
    }

    pub fn set_domain(self, domain: String) -> (r: Self)
        ensures
            r@ == (CookieModel { domain: Some(domain@), ..self@ }),
    {
        let mut s = self;
        s.domain = Some(domain);
        s
    }

    pub fn set_secure(self) -> (r: Self)
        ensures
            r@ == (CookieModel { secure: true, ..self@ }),
    {
        let mut s = self;
        s.secure = true;
        s
    }

    pub fn set_same_site(self) -> (r: Self)
        ensures
            r@ == (CookieModel { same_site: true, ..self@ }),
    {
        let mut s = self;
        s.same_site = true;
        s
    }

    pub fn set_path(self, path: String) -> (r: Self)
        ensures
            r@ == (CookieModel { path: Some(path@), ..self@ }),
    {
        let mut s = self;
        s.path = Some(path);
        s
    }

    pub fn set_http_only(self) -> (r: Self)
        ensures
            r@ == (CookieModel { http_only: true, ..self@ }),
    {
        let mut s = self;
        s.http_only = true;
        s
    }

    pub fn set_partitioned(self) -> (r: Self)
        ensures
            r@ == (CookieModel { partitioned: true, ..self@ }),
    {
        let mut s = self;
        s.partitioned = true;
        s
    }

    /// The `Set-Cookie` header value.
    pub fn to_string(&self) -> (r: String)
        ensures
            r@ == cookie_text(self@),
    {
        let mut result = self.name.clone();
        result.append("=");
        result.append(self.value.as_str());
        let ghost t0 = result@;
        if let Some(path) = &self.path {
            add_element(&mut result, "Path", path.as_str());
        }
        if let Some(expires_at) = &self.expires {
            add_element(&mut result, "Expires", expires_at.as_str());
        }
        if let Some(max_age) = self.max_age {
            let mut digits = String::new();
            push_decimal(&mut digits, max_age);
            assert(digits@ =~= decimal(max_age as nat));
            add_element(&mut result, "Max-Age", digits.as_str());
        }
        if let Some(domain) = &self.domain {
            add_element(&mut result, "Domain", domain.as_str());
        }
        if self.http_only {
            add_empty_element(&mut result, "HttpOnly");
        }
        if self.partitioned {
            add_empty_element(&mut result, "Partitioned");
        }
        if self.secure {
            add_empty_element(&mut result, "Secure");
        }
        if self.same_site {
            add_element(&mut result, "Samesite", "None");
        }
        result
    }
}

/// The cookies of a response, in the order they were set.
#[derive(Debug)]
pub struct CookieJar {
    cookies: Vec<Cookie>,
}

impl View for CookieJar {
    type V = Seq<CookieModel>;

    closed spec fn view(&self) -> Seq<CookieModel> {
        self.cookies@.map_values(|c: Cookie| c@)
    }
}

impl CookieJar {
    pub fn new() -> (r: Self)
        ensures
            r@ == Seq::<CookieModel>::empty(),
    {
        let r = CookieJar { cookies: Vec::new() };
        assert(r@ =~= Seq::<CookieModel>::empty());
        r
    }

    /// Adds a cookie after the ones already in the jar.
    pub fn set_cookie(self, cookie: Cookie) -> (r: Self)
        ensures
            r@ == self@.push(cookie@),
    {
        let ghost old_view = self@;
        let ghost c = cookie@;
        let mut s = self;
        s.cookies.push(cookie);
        assert(s@ =~= old_view.push(c));
        s
    }

    /// Adds cookies in order after the ones already in the jar.
    pub fn set_cookies(self, cookies: Vec<Cookie>) -> (r: Self)
        ensures
            r@ == self@ + cookies@.map_values(|c: Cookie| c@),
    {
        let ghost start = self@;
        let ghost added = cookies@.map_values(|c: Cookie| c@);
        let mut s = self;
        let mut rest = cookies;
        let n = rest.len();
        let mut i: usize = 0;
        while i < n
            invariant
                n == added.len(),
                i <= n,
                rest@.len() == n - i,
                rest@.map_values(|c: Cookie| c@) == added.subrange(i as int, n as int),
                s@ == start + added.subrange(0, i as int),
            decreases n - i,
        {
            assert(rest@.map_values(|c: Cookie| c@)[0] == added[i as int]);
            let ghost before = rest@;
            let c = rest.remove(0);
            s = s.set_cookie(c);
            i = i + 1;
            assert forall|k: int| 0 <= k < rest@.len() implies #[trigger] rest@[k]@ == added[i + k] by {
                assert(rest@[k] == before[k + 1]);
                assert(before.map_values(|c: Cookie| c@)[k + 1] == added[i + k]);
            }
            assert(rest@.map_values(|c: Cookie| c@) =~= added.subrange(i as int, n as int));
            assert(s@ =~= start + added.subrange(0, i as int));
        }
        assert(added.subrange(0, n as int) =~= added);
        s
    }

    pub fn get_cookies(&self) -> (r: &Vec<Cookie>)
        ensures
            r@.map_values(|c: Cookie| c@) == self@,
    {
        &self.cookies
    }

    pub fn is_empty(&self) -> (r: bool)
        ensures
            r == (self@.len() == 0),
    {
        self.cookies.len() == 0
    }
}


/// A `(name, value)` pair is a session cookie with no attributes.
impl From<(String, String)> for Cookie {
    fn from(pair: (String, String)) -> (r: Self) {
        Cookie {
            name: pair.0,
            value: pair.1,
            expires: None,
            max_age: None,
            domain: None,
            path: None,
            http_only: false,
            partitioned: false,
            secure: false,
            same_site: false,
        }
    }
}

impl vstd::std_specs::convert::FromSpecImpl<(String, String)> for Cookie {
    open spec fn obeys_from_spec() -> bool {
        true
    }

    open spec fn from_spec(pair: (String, String)) -> Self {
        Cookie {
            name: pair.0,
            value: pair.1,
            expires: None,
            max_age: None,
            domain: None,
            path: None,
            http_only: false,
            partitioned: false,
            secure: false,
            same_site: false,
        }
    }
}

/// `whole` is `rest` with `piece` put in at one place.
pub open spec fn inserted_in(whole: Seq<char>, rest: Seq<char>, piece: Seq<char>) -> bool {
    exists|i: int|
        0 <= i <= rest.len() && whole == rest.subrange(0, i) + piece + rest.subrange(i, rest.len() as int)
}

/// The pieces a `Set-Cookie` text is made of, in order: `name=value`, then
/// one piece per attribute, empty for an attribute the cookie does not have.
spec fn cookie_pieces(c: CookieModel) -> Seq<Seq<char>> {
    seq![
        c.name + "="@ + c.value,
        match c.path { Some(p) => element("Path"@, p), None => Seq::empty() },
        match c.expires { Some(e) => element("Expires"@, e), None => Seq::empty() },
        match c.max_age { Some(m) => element("Max-Age"@, decimal(m as nat)), None => Seq::empty() },
        match c.domain { Some(d) => element("Domain"@, d), None => Seq::empty() },
        if c.http_only { "; "@ + "HttpOnly"@ } else { Seq::empty() },
        if c.partitioned { "; "@ + "Partitioned"@ } else { Seq::empty() },
        if c.secure { "; "@ + "Secure"@ } else { Seq::empty() },
        if c.same_site { element("Samesite"@, "None"@) } else { Seq::empty() },
    ]
}

/// The pieces joined, left to right.
#[verifier::opaque]
spec fn joined(ps: Seq<Seq<char>>) -> Seq<char>
    decreases ps.len(),
{
    if ps.len() == 0 {
        Seq::empty()
    } else {
        joined(ps.drop_last()) + ps.last()
    }
}

proof fn lemma_joined_step(ps: Seq<Seq<char>>, k: int)
    requires
        0 <= k < ps.len(),
    ensures
        joined(ps.take(k + 1)) == joined(ps.take(k)) + ps[k],
{
    reveal(joined);
    assert(ps.take(k + 1).drop_last() =~= ps.take(k));
}

#[verifier::rlimit(60)]
proof fn lemma_cookie_text_is_joined(c: CookieModel)
    ensures
        cookie_text(c) == joined(cookie_pieces(c)),
{
    let ps = cookie_pieces(c);
    let t0 = c.name + "="@ + c.value;
    let t1 = match c.path {
        Some(p) => t0 + element("Path"@, p),
        None => t0,
    };
    let t2 = match c.expires {
        Some(e) => t1 + element("Expires"@, e),
        None => t1,
    };
    let t3 = match c.max_age {
        Some(m) => t2 + element("Max-Age"@, decimal(m as nat)),
        None => t2,
    };
    let t4 = match c.domain {
        Some(d) => t3 + element("Domain"@, d),
        None => t3,
    };
    let t5 = if c.http_only { t4 + "; "@ + "HttpOnly"@ } else { t4 };
    let t6 = if c.partitioned { t5 + "; "@ + "Partitioned"@ } else { t5 };
    let t7 = if c.secure { t6 + "; "@ + "Secure"@ } else { t6 };
    let t8 = if c.same_site { t7 + element("Samesite"@, "None"@) } else { t7 };
    assert(cookie_text(c) == t8);
    assert(ps.take(0) =~= Seq::<Seq<char>>::empty());
    assert(joined(ps.take(0)) == Seq::<char>::empty()) by {
        reveal(joined);
    }
    lemma_joined_step(ps, 0);
    assert(joined(ps.take(1)) =~= t0);
    lemma_joined_step(ps, 1);
    assert(joined(ps.take(2)) =~= t1);
    lemma_joined_step(ps, 2);
    assert(joined(ps.take(3)) =~= t2);
    lemma_joined_step(ps, 3);
    assert(joined(ps.take(4)) =~= t3);
    lemma_joined_step(ps, 4);
    assert(joined(ps.take(5)) =~= t4);
    lemma_joined_step(ps, 5);
    assert(joined(ps.take(6)) =~= t5);
    lemma_joined_step(ps, 6);
    assert(joined(ps.take(7)) =~= t6);
    lemma_joined_step(ps, 7);
    assert(joined(ps.take(8)) =~= t7);
    lemma_joined_step(ps, 8);
    assert(joined(ps.take(9)) =~= t8);
    assert(ps.take(9) =~= ps);
}

/// Joined pieces split around the piece at `k`.
proof fn lemma_joined_around(ps: Seq<Seq<char>>, k: int)
    requires
        0 <= k < ps.len(),
    ensures
        joined(ps) == joined(ps.take(k)) + ps[k] + joined(ps.skip(k + 1)),
    decreases ps.len(),
{
    reveal(joined);
    if k == ps.len() - 1 {
        assert(ps.drop_last() =~= ps.take(k));
        assert(ps.skip(k + 1) =~= Seq::<Seq<char>>::empty());
        assert(joined(ps.take(k)) + ps[k] + Seq::<char>::empty() =~= joined(ps.take(k)) + ps[k]);
    } else {
        let d = ps.drop_last();
        lemma_joined_around(d, k);
        assert(d.take(k) =~= ps.take(k));
        assert(ps.skip(k + 1).drop_last() =~= d.skip(k + 1));
        assert(ps.skip(k + 1).last() == ps.last());
        assert(joined(ps.take(k)) + ps[k] + joined(d.skip(k + 1)) + ps.last() =~= joined(ps.take(k))
            + ps[k] + (joined(d.skip(k + 1)) + ps.last()));
    }
}

/// Emptying one piece takes exactly that piece out of the joined text.
proof fn lemma_joined_without(ps: Seq<Seq<char>>, k: int)
    requires
        0 <= k < ps.len(),
    ensures
        inserted_in(joined(ps), joined(ps.update(k, Seq::empty())), ps[k]),
{
    let qs = ps.update(k, Seq::empty());
    lemma_joined_around(ps, k);
    lemma_joined_around(qs, k);
    assert(qs.take(k) =~= ps.take(k));
    assert(qs.skip(k + 1) =~= ps.skip(k + 1));
    let a = joined(ps.take(k));
    let b = joined(ps.skip(k + 1));
    let rest = joined(qs);
    assert(rest =~= a + b);
    assert(rest.subrange(0, a.len() as int) =~= a);
    assert(rest.subrange(a.len() as int, rest.len() as int) =~= b);
    assert(joined(ps) == rest.subrange(0, a.len() as int) + ps[k] + rest.subrange(
        a.len() as int,
        rest.len() as int,
    ));
}

/// A cookie's `Set-Cookie` text starts with `name=value`, and each attribute
/// the cookie has puts exactly its own element into the text: taking the
/// attribute away takes exactly `; Path=…`, `; Expires=…`, `; Max-Age=…`,
/// `; Domain=…`, `; HttpOnly`, `; Partitioned`, `; Secure` or
/// `; Samesite=None` out of it, and nothing else.
pub proof fn law_cookie_attributes_are_carried(c: CookieModel)
    ensures
        cookie_text(c).subrange(0, (c.name + "="@ + c.value).len() as int) == c.name + "="@ + c.value,
        c.path matches Some(p) ==> inserted_in(
            cookie_text(c),
            cookie_text(CookieModel { path: None, ..c }),
            "; Path="@ + p,
        ),
        c.expires matches Some(e) ==> inserted_in(
            cookie_text(c),
            cookie_text(CookieModel { expires: None, ..c }),
            "; Expires="@ + e,
        ),
        c.max_age matches Some(m) ==> inserted_in(
            cookie_text(c),
            cookie_text(CookieModel { max_age: None, ..c }),
            "; Max-Age="@ + decimal(m as nat),
        ),
        c.domain matches Some(d) ==> inserted_in(
            cookie_text(c),
            cookie_text(CookieModel { domain: None, ..c }),
            "; Domain="@ + d,
        ),
        c.http_only ==> inserted_in(
            cookie_text(c),
            cookie_text(CookieModel { http_only: false, ..c }),
            "; HttpOnly"@,
        ),
        c.partitioned ==> inserted_in(
            cookie_text(c),
            cookie_text(CookieModel { partitioned: false, ..c }),
            "; Partitioned"@,
        ),
        c.secure ==> inserted_in(
            cookie_text(c),
            cookie_text(CookieModel { secure: false, ..c }),
            "; Secure"@,
        ),
        c.same_site ==> inserted_in(
            cookie_text(c),
            cookie_text(CookieModel { same_site: false, ..c }),
            "; Samesite=None"@,
        ),
{
    lemma_starts_with_pair(c);
    lemma_path_carried(c);
    lemma_expires_carried(c);
    lemma_max_age_carried(c);
    lemma_domain_carried(c);
    lemma_http_only_carried(c);
    lemma_partitioned_carried(c);
    lemma_secure_carried(c);
    lemma_same_site_carried(c);
}

proof fn lemma_path_carried(c: CookieModel)
    ensures
        c.path matches Some(p) ==> inserted_in(
            cookie_text(c),
            cookie_text(CookieModel { path: None, ..c }),
            "; Path="@ + p,
        ),
{
    if let Some(p) = c.path {
        lemma_piece_carried(c, CookieModel { path: None, ..c }, 1);
        lemma_element_texts(p);
    }
}

proof fn lemma_expires_carried(c: CookieModel)
    ensures
        c.expires matches Some(e) ==> inserted_in(
            cookie_text(c),
            cookie_text(CookieModel { expires: None, ..c }),
            "; Expires="@ + e,
        ),
{
    if let Some(e) = c.expires {
        lemma_piece_carried(c, CookieModel { expires: None, ..c }, 2);
        lemma_element_texts(e);
    }
}

proof fn lemma_max_age_carried(c: CookieModel)
    ensures
        c.max_age matches Some(m) ==> inserted_in(
            cookie_text(c),
            cookie_text(CookieModel { max_age: None, ..c }),
            "; Max-Age="@ + decimal(m as nat),
        ),
{
    if let Some(m) = c.max_age {
        lemma_piece_carried(c, CookieModel { max_age: None, ..c }, 3);
        lemma_element_texts(decimal(m as nat));
    }
}

proof fn lemma_domain_carried(c: CookieModel)
    ensures
        c.domain matches Some(d) ==> inserted_in(
            cookie_text(c),
            cookie_text(CookieModel { domain: None, ..c }),
            "; Domain="@ + d,
        ),
{
    if let Some(d) = c.domain {
        lemma_piece_carried(c, CookieModel { domain: None, ..c }, 4);
        lemma_element_texts(d);
    }
}

proof fn lemma_http_only_carried(c: CookieModel)
    ensures
        c.http_only ==> inserted_in(
            cookie_text(c),
            cookie_text(CookieModel { http_only: false, ..c }),
            "; HttpOnly"@,
        ),
{
    if c.http_only {
        lemma_piece_carried(c, CookieModel { http_only: false, ..c }, 5);
        lemma_flag_texts();
    }
}

proof fn lemma_partitioned_carried(c: CookieModel)
    ensures
        c.partitioned ==> inserted_in(
            cookie_text(c),
            cookie_text(CookieModel { partitioned: false, ..c }),
            "; Partitioned"@,
        ),
{
    if c.partitioned {
        lemma_piece_carried(c, CookieModel { partitioned: false, ..c }, 6);
        lemma_flag_texts();
    }
}

proof fn lemma_secure_carried(c: CookieModel)
    ensures
        c.secure ==> inserted_in(
            cookie_text(c),
            cookie_text(CookieModel { secure: false, ..c }),
            "; Secure"@,
        ),
{
    if c.secure {
        lemma_piece_carried(c, CookieModel { secure: false, ..c }, 7);
        lemma_flag_texts();
    }
}

proof fn lemma_same_site_carried(c: CookieModel)
    ensures
        c.same_site ==> inserted_in(
            cookie_text(c),
            cookie_text(CookieModel { same_site: false, ..c }),
            "; Samesite=None"@,
        ),
{
    if c.same_site {
        lemma_piece_carried(c, CookieModel { same_site: false, ..c }, 8);
        lemma_flag_texts();
    }
}

proof fn lemma_starts_with_pair(c: CookieModel)
    ensures
        cookie_text(c).subrange(0, (c.name + "="@ + c.value).len() as int) == c.name + "="@ + c.value,
{
    let ps = cookie_pieces(c);
    lemma_cookie_text_is_joined(c);
    lemma_joined_around(ps, 0);
    assert(ps.take(0) =~= Seq::<Seq<char>>::empty());
    assert(joined(ps.take(0)) == Seq::<char>::empty()) by {
        reveal(joined);
    }
    assert(joined(ps.take(0)) + ps[0] + joined(ps.skip(1)) =~= ps[0] + joined(ps.skip(1)));
    assert((ps[0] + joined(ps.skip(1))).subrange(0, ps[0].len() as int) =~= ps[0]);
}

/// Taking one attribute away empties exactly its piece.
proof fn lemma_piece_carried(c: CookieModel, d: CookieModel, k: int)
    requires
        1 <= k < 9,
        cookie_pieces(d) =~= cookie_pieces(c).update(k, Seq::empty()),
    ensures
        inserted_in(cookie_text(c), cookie_text(d), cookie_pieces(c)[k]),
{
    lemma_cookie_text_is_joined(c);
    lemma_cookie_text_is_joined(d);
    lemma_joined_without(cookie_pieces(c), k);
}

proof fn lemma_element_texts(v: Seq<char>)
    ensures
        element("Path"@, v) == "; Path="@ + v,
        element("Expires"@, v) == "; Expires="@ + v,
        element("Max-Age"@, v) == "; Max-Age="@ + v,
        element("Domain"@, v) == "; Domain="@ + v,
{
    reveal_strlit("; ");
    reveal_strlit("=");
    reveal_strlit("Path");
    reveal_strlit("Expires");
    reveal_strlit("Max-Age");
    reveal_strlit("Domain");
    reveal_strlit("; Path=");
    reveal_strlit("; Expires=");
    reveal_strlit("; Max-Age=");
    reveal_strlit("; Domain=");
    assert(element("Path"@, v) =~= "; Path="@ + v);
    assert(element("Expires"@, v) =~= "; Expires="@ + v);
    assert(element("Max-Age"@, v) =~= "; Max-Age="@ + v);
    assert(element("Domain"@, v) =~= "; Domain="@ + v);
}

proof fn lemma_flag_texts()
    ensures
        "; "@ + "HttpOnly"@ == "; HttpOnly"@,
        "; "@ + "Partitioned"@ == "; Partitioned"@,
        "; "@ + "Secure"@ == "; Secure"@,
        element("Samesite"@, "None"@) == "; Samesite=None"@,
{
    reveal_strlit("; ");
    reveal_strlit("=");
    reveal_strlit("HttpOnly");
    reveal_strlit("Partitioned");
    reveal_strlit("Secure");
    reveal_strlit("Samesite");
    reveal_strlit("None");
    reveal_strlit("; HttpOnly");
    reveal_strlit("; Partitioned");
    reveal_strlit("; Secure");
    reveal_strlit("; Samesite=None");
    assert("; "@ + "HttpOnly"@ =~= "; HttpOnly"@);
    assert("; "@ + "Partitioned"@ =~= "; Partitioned"@);
    assert("; "@ + "Secure"@ =~= "; Secure"@);
    assert(element("Samesite"@, "None"@) =~= "; Samesite=None"@);
}

/// `c` keeping only the attributes that come before position `k` in the
/// order `Set-Cookie` writes them: Path (1), Expires (2), Max-Age (3),
/// Domain (4), HttpOnly (5), Partitioned (6), Secure (7), Samesite (8).
pub open spec fn with_attributes_before(c: CookieModel, k: int) -> CookieModel {
    CookieModel {
        path: if k > 1 { c.path } else { None },
        expires: if k > 2 { c.expires } else { None },
        max_age: if k > 3 { c.max_age } else { None },
        domain: if k > 4 { c.domain } else { None },
        http_only: k > 5 && c.http_only,
        partitioned: k > 6 && c.partitioned,
        secure: k > 7 && c.secure,
        same_site: k > 8 && c.same_site,
        ..c
    }
}

proof fn lemma_joined_split(ps: Seq<Seq<char>>, j: int)
    requires
        0 <= j <= ps.len(),
    ensures
        joined(ps) == joined(ps.take(j)) + joined(ps.skip(j)),
    decreases ps.len(),
{
    reveal(joined);
    if j == ps.len() {
        assert(ps.take(j) =~= ps);
        assert(ps.skip(j) =~= Seq::<Seq<char>>::empty());
        assert(joined(ps) + Seq::<char>::empty() =~= joined(ps));
    } else {
        let d = ps.drop_last();
        lemma_joined_split(d, j);
        assert(d.take(j) =~= ps.take(j));
        assert(ps.skip(j).drop_last() =~= d.skip(j));
        assert(ps.skip(j).last() == ps.last());
        assert(joined(ps.take(j)) + joined(d.skip(j)) + ps.last() =~= joined(ps.take(j)) + (joined(
            d.skip(j),
        ) + ps.last()));
    }
}

proof fn lemma_joined_empties(ps: Seq<Seq<char>>)
    requires
        forall|i: int| 0 <= i < ps.len() ==> #[trigger] ps[i] == Seq::<char>::empty(),
    ensures
        joined(ps) == Seq::<char>::empty(),
    decreases ps.len(),
{
    reveal(joined);
    if ps.len() > 0 {
        let d = ps.drop_last();
        assert forall|i: int| 0 <= i < d.len() implies #[trigger] d[i] == Seq::<char>::empty() by {
            assert(d[i] == ps[i]);
        }
        lemma_joined_empties(d);
        assert(ps[ps.len() - 1] == Seq::<char>::empty());
        assert(Seq::<char>::empty() + Seq::<char>::empty() =~= Seq::<char>::empty());
    }
}

/// The text of a cookie keeping only the attributes before `k` joins the
/// first `k` pieces of the full cookie.
proof fn lemma_text_before(c: CookieModel, k: int)
    requires
        1 <= k <= 9,
    ensures
        cookie_text(with_attributes_before(c, k)) == joined(cookie_pieces(c).take(k)),
{
    let d = with_attributes_before(c, k);
    let ps = cookie_pieces(c);
    let qs = cookie_pieces(d);
    lemma_cookie_text_is_joined(d);
    lemma_joined_split(qs, k);
    assert(qs.take(k) =~= ps.take(k));
    assert forall|i: int| 0 <= i < qs.skip(k).len() implies #[trigger] qs.skip(k)[i] == Seq::<
        char,
    >::empty() by {
        assert(qs.skip(k)[i] == qs[k + i]);
    }
    lemma_joined_empties(qs.skip(k));
    assert(joined(qs.take(k)) + Seq::<char>::empty() =~= joined(qs.take(k)));
}

/// Keeping attributes up to `k` adds piece `k` at the end of the text that
/// keeps those before it.
proof fn lemma_piece_appended(c: CookieModel, k: int)
    requires
        1 <= k < 9,
    ensures
        cookie_text(with_attributes_before(c, k + 1)) == cookie_text(with_attributes_before(c, k))
            + cookie_pieces(c)[k],
{
    lemma_text_before(c, k);
    lemma_text_before(c, k + 1);
    lemma_joined_step(cookie_pieces(c), k);
}

/// The attributes of a `Set-Cookie` text come in a fixed order: the text of a
/// cookie with no attributes is `name=value`, the text of the whole cookie is
/// that of the cookie keeping all its attributes, and each attribute the
/// cookie has is written right after the attributes that come before it:
/// Path, Expires, Max-Age, Domain, HttpOnly, Partitioned, Secure, Samesite.
pub proof fn law_cookie_attributes_in_order(c: CookieModel)
    ensures
        cookie_text(with_attributes_before(c, 1)) == c.name + "="@ + c.value,
        cookie_text(with_attributes_before(c, 9)) == cookie_text(c),
        c.path matches Some(p) ==> cookie_text(with_attributes_before(c, 2)) == cookie_text(
            with_attributes_before(c, 1),
        ) + "; Path="@ + p,
        c.expires matches Some(e) ==> cookie_text(with_attributes_before(c, 3)) == cookie_text(
            with_attributes_before(c, 2),
        ) + "; Expires="@ + e,
        c.max_age matches Some(m) ==> cookie_text(with_attributes_before(c, 4)) == cookie_text(
            with_attributes_before(c, 3),
        ) + "; Max-Age="@ + decimal(m as nat),
        c.domain matches Some(d) ==> cookie_text(with_attributes_before(c, 5)) == cookie_text(
            with_attributes_before(c, 4),
        ) + "; Domain="@ + d,
        c.http_only ==> cookie_text(with_attributes_before(c, 6)) == cookie_text(
            with_attributes_before(c, 5),
        ) + "; HttpOnly"@,
        c.partitioned ==> cookie_text(with_attributes_before(c, 7)) == cookie_text(
            with_attributes_before(c, 6),
        ) + "; Partitioned"@,
        c.secure ==> cookie_text(with_attributes_before(c, 8)) == cookie_text(
            with_attributes_before(c, 7),
        ) + "; Secure"@,
        c.same_site ==> cookie_text(with_attributes_before(c, 9)) == cookie_text(
            with_attributes_before(c, 8),
        ) + "; Samesite=None"@,
{
    lemma_order_ends(c);
    lemma_path_in_order(c);
    lemma_expires_in_order(c);
    lemma_max_age_in_order(c);
    lemma_domain_in_order(c);
    lemma_http_only_in_order(c);
    lemma_partitioned_in_order(c);
    lemma_secure_in_order(c);
    lemma_same_site_in_order(c);
}

proof fn lemma_path_in_order(c: CookieModel)
    ensures
        c.path matches Some(p) ==> cookie_text(with_attributes_before(c, 2)) == cookie_text(
            with_attributes_before(c, 1),
        ) + "; Path="@ + p,
{
    if let Some(p) = c.path {
        lemma_piece_appended(c, 1);
        lemma_element_texts(p);
    }
}

proof fn lemma_expires_in_order(c: CookieModel)
    ensures
        c.expires matches Some(e) ==> cookie_text(with_attributes_before(c, 3)) == cookie_text(
            with_attributes_before(c, 2),
        ) + "; Expires="@ + e,
{
    if let Some(e) = c.expires {
        lemma_piece_appended(c, 2);
        lemma_element_texts(e);
    }
}

proof fn lemma_max_age_in_order(c: CookieModel)
    ensures
        c.max_age matches Some(m) ==> cookie_text(with_attributes_before(c, 4)) == cookie_text(
            with_attributes_before(c, 3),
        ) + "; Max-Age="@ + decimal(m as nat),
{
    if let Some(m) = c.max_age {
        lemma_piece_appended(c, 3);
        lemma_element_texts(decimal(m as nat));
    }
}

proof fn lemma_domain_in_order(c: CookieModel)
    ensures
        c.domain matches Some(d) ==> cookie_text(with_attributes_before(c, 5)) == cookie_text(
            with_attributes_before(c, 4),
        ) + "; Domain="@ + d,
{
    if let Some(d) = c.domain {
        lemma_piece_appended(c, 4);
        lemma_element_texts(d);
    }
}

proof fn lemma_http_only_in_order(c: CookieModel)
    ensures
        c.http_only ==> cookie_text(with_attributes_before(c, 6)) == cookie_text(
            with_attributes_before(c, 5),
        ) + "; HttpOnly"@,
{
    if c.http_only {
        lemma_piece_appended(c, 5);
        lemma_flag_texts();
    }
}

proof fn lemma_partitioned_in_order(c: CookieModel)
    ensures
        c.partitioned ==> cookie_text(with_attributes_before(c, 7)) == cookie_text(
            with_attributes_before(c, 6),
        ) + "; Partitioned"@,
{
    if c.partitioned {
        lemma_piece_appended(c, 6);
        lemma_flag_texts();
    }
}

proof fn lemma_secure_in_order(c: CookieModel)
    ensures
        c.secure ==> cookie_text(with_attributes_before(c, 8)) == cookie_text(
            with_attributes_before(c, 7),
        ) + "; Secure"@,
{
    if c.secure {
        lemma_piece_appended(c, 7);
        lemma_flag_texts();
    }
}

proof fn lemma_same_site_in_order(c: CookieModel)
    ensures
        c.same_site ==> cookie_text(with_attributes_before(c, 9)) == cookie_text(
            with_attributes_before(c, 8),
        ) + "; Samesite=None"@,
{
    if c.same_site {
        lemma_piece_appended(c, 8);
        lemma_flag_texts();
    }
}

proof fn lemma_order_ends(c: CookieModel)
    ensures
        cookie_text(with_attributes_before(c, 1)) == c.name + "="@ + c.value,
        cookie_text(with_attributes_before(c, 9)) == cookie_text(c),
{
    lemma_text_before(c, 1);
    lemma_joined_step(cookie_pieces(c), 0);
    assert(cookie_pieces(c).take(0) =~= Seq::<Seq<char>>::empty());
    assert(joined(cookie_pieces(c).take(0)) == Seq::<char>::empty()) by {
        reveal(joined);
    }
    assert(Seq::<char>::empty() + cookie_pieces(c)[0] =~= cookie_pieces(c)[0]);
    assert(with_attributes_before(c, 9) == c);
}

} // verus!
