//! Which request the API documentation pages answer, and how.
//!
//! The documentation lives under `/swagger`: the bare `/swagger` is sent on
//! to `/swagger/index.html`, a fixed set of files is served from there, and
//! `/swagger/v1/swagger.yaml` is the API description itself.
use vstd::prelude::*;
use vstd::string::*;
use crate::output::{
    HttpOutput, OutputModel, HttpResponseHeaders, WebContentType, RedirectType, bare_headers,
    content_type_of_file, last_dot,
};
use crate::text::{
    next_index_of, lemma_next_index_of, find_char_from, eq_ignore_case, str_equals,
    ascii_equals_ignore_case, strs_view, lower_code,
};

verus! {

/// The non-empty `/`-separated segments of `s[start..]`.
pub open spec fn segments_from(s: Seq<char>, start: int) -> Seq<Seq<char>>
    decreases s.len() - start,
{
    if start < 0 || start > s.len() {
        Seq::empty()
    } else {
        let end = next_index_of(s, '/', start);
        proof {
            lemma_next_index_of(s, '/', start);
        }
        let item = s.subrange(start, end);
        let rest = if end >= s.len() {
            Seq::empty()
        } else {
            segments_from(s, end + 1)
        };
        if item.len() == 0 {
            rest
        } else {
            seq![item] + rest
        }
    }
}

/// The segments of a path: what stands between its `/`s, empty ones left out.
pub open spec fn segments_of(path: Seq<char>) -> Seq<Seq<char>> {
    segments_from(path, 0)
}

/// The segments of a request path.
pub fn path_segments<'a>(path: &'a str) -> (r: Vec<&'a str>)
    ensures
        strs_view(r@) == segments_of(path@),
{
    let mut result: Vec<&'a str> = Vec::new();
    let n = path.unicode_len();
    let mut start: usize = 0;
    assert(strs_view(result@) + segments_from(path@, 0) =~= segments_of(path@));
    loop
        invariant
            n == path@.len(),
            start <= n,
            strs_view(result@) + segments_from(path@, start as int) == segments_of(path@),
        decreases n - start,
    {
        proof {
            lemma_next_index_of(path@, '/', start as int);
        }
        let ghost before = strs_view(result@);
        let ghost rest = if next_index_of(path@, '/', start as int) >= n {
            Seq::<Seq<char>>::empty()
        } else {
            segments_from(path@, next_index_of(path@, '/', start as int) + 1)
        };
        let end = find_char_from(path, '/', start);
        let item = path.substring_char(start, end);
        if end > start {
            result.push(item);
            assert(strs_view(result@) =~= before.push(item@));
            assert(segments_from(path@, start as int) == seq![item@] + rest);
            assert(strs_view(result@) + rest =~= before + segments_from(path@, start as int));
        } else {
            assert(item@.len() == 0);
            assert(segments_from(path@, start as int) == rest);
        }
        if end >= n {
            assert(rest =~= Seq::<Seq<char>>::empty());
            assert(strs_view(result@) =~= strs_view(result@) + rest);
            return result;
        }
        start = end + 1;
    }
}

/// What the documentation does with a request.
#[derive(Clone, Copy, Debug, PartialEq, Eq, Structural)]
pub enum SwaggerRoute {
    /// Not a documentation request.
    NotMine,
    /// `/swagger`: send the client on to the index page.
    RedirectToIndex,
    IndexPage,
    Css,
    BundleJs,
    StandalonePresetJs,
    Favicon32,
    Favicon16,
    /// `/swagger/v1/swagger.yaml`: the description of the API.
    Definition,
}

/// The route of a request with path segments `segs`. The first segment must
/// be `swagger` exactly; the file names are matched with ASCII case ignored.
pub open spec fn swagger_route_of(segs: Seq<Seq<char>>) -> SwaggerRoute {
    if segs.len() == 0 || segs[0] != "swagger"@ {
        SwaggerRoute::NotMine
    } else if segs.len() == 1 {
        SwaggerRoute::RedirectToIndex
    } else if eq_ignore_case(segs[1], "index.html"@) {
        SwaggerRoute::IndexPage
    } else if eq_ignore_case(segs[1], "swagger-ui.css"@) {
        SwaggerRoute::Css
    } else if eq_ignore_case(segs[1], "swagger-ui-bundle.js"@) {
        SwaggerRoute::BundleJs
    } else if eq_ignore_case(segs[1], "swagger-ui-standalone-preset.js"@) {
        SwaggerRoute::StandalonePresetJs
    } else if eq_ignore_case(segs[1], "favicon-32x32.png"@) {
        SwaggerRoute::Favicon32
    } else if eq_ignore_case(segs[1], "favicon-16x16.png"@) {
        SwaggerRoute::Favicon16
    } else if segs.len() >= 3 && eq_ignore_case(segs[1], "v1"@) && eq_ignore_case(
        segs[2],
        "swagger.yaml"@,
    ) {
        SwaggerRoute::Definition
    } else {
        SwaggerRoute::NotMine
    }
}

/// What the documentation does with a request for `path`.
pub fn swagger_route(path: &str) -> (r: SwaggerRoute)
    ensures
        r == swagger_route_of(segments_of(path@)),
{
    let segs = path_segments(path);
    proof {
        assert(segs@.len() == segments_of(path@).len());
        assert(forall|i: int| 0 <= i < segs@.len() ==> segs@[i]@ == #[trigger] segments_of(path@)[i]) by {
            assert forall|i: int| 0 <= i < segs@.len() implies segs@[i]@ == #[trigger] segments_of(
                path@,
            )[i] by {
                assert(strs_view(segs@)[i] == segs@[i]@);
            }
        }
    }
    if segs.len() == 0 || !str_equals(segs[0], "swagger") {
        return SwaggerRoute::NotMine;
    }
    if segs.len() == 1 {
        return SwaggerRoute::RedirectToIndex;
    }
    let name = segs[1];
    if ascii_equals_ignore_case(name, "index.html") {
        SwaggerRoute::IndexPage
    } else if ascii_equals_ignore_case(name, "swagger-ui.css") {
        SwaggerRoute::Css
    } else if ascii_equals_ignore_case(name, "swagger-ui-bundle.js") {
        SwaggerRoute::BundleJs
    } else if ascii_equals_ignore_case(name, "swagger-ui-standalone-preset.js") {
        SwaggerRoute::StandalonePresetJs
    } else if ascii_equals_ignore_case(name, "favicon-32x32.png") {
        SwaggerRoute::Favicon32
    } else if ascii_equals_ignore_case(name, "favicon-16x16.png") {
        SwaggerRoute::Favicon16
    } else if segs.len() >= 3 && ascii_equals_ignore_case(name, "v1") && ascii_equals_ignore_case(
        segs[2],
        "swagger.yaml",
    ) {
        SwaggerRoute::Definition
    } else {
        SwaggerRoute::NotMine
    }
}

/// The content type a documentation file is served with.
pub open spec fn route_content_type(route: SwaggerRoute) -> Option<WebContentType> {
    match route {
        SwaggerRoute::IndexPage => Some(WebContentType::Html),
        SwaggerRoute::Css => Some(WebContentType::Css),
        SwaggerRoute::BundleJs => Some(WebContentType::JavaScript),
        SwaggerRoute::StandalonePresetJs => Some(WebContentType::JavaScript),
        SwaggerRoute::Favicon32 => Some(WebContentType::Png),
        SwaggerRoute::Favicon16 => Some(WebContentType::Png),
        SwaggerRoute::Definition => Some(WebContentType::Json),
        SwaggerRoute::NotMine => None,
        SwaggerRoute::RedirectToIndex => None,
    }
}

impl SwaggerRoute {
    /// The content type the file of this route is served with.
    pub fn content_type(&self) -> (r: Option<WebContentType>)
        ensures
            r == route_content_type(*self),
    {
        match self {
            SwaggerRoute::IndexPage => Some(WebContentType::Html),
            SwaggerRoute::Css => Some(WebContentType::Css),
            SwaggerRoute::BundleJs => Some(WebContentType::JavaScript),
            SwaggerRoute::StandalonePresetJs => Some(WebContentType::JavaScript),
            SwaggerRoute::Favicon32 => Some(WebContentType::Png),
            SwaggerRoute::Favicon16 => Some(WebContentType::Png),
            SwaggerRoute::Definition => Some(WebContentType::Json),
            SwaggerRoute::NotMine => None,
            SwaggerRoute::RedirectToIndex => None,
        }
    }
}

/// The temporary redirect from `/swagger` to the index page on the same
/// scheme and host.
pub fn swagger_redirect(scheme: &str, host: &str) -> (r: HttpOutput)
    ensures
        r@ == (OutputModel::Redirect {
            headers: bare_headers(None),
            url: scheme@ + "://"@ + host@ + "/swagger/index.html"@,
            redirect_type: RedirectType::Temporary,
        }),
{
    let mut url = String::from_str(scheme);
    url.append("://");
    url.append(host);
    url.append("/swagger/index.html");
    HttpOutput::Redirect {
        headers: HttpResponseHeaders::new(None),
        url,
        redirect_type: RedirectType::Temporary,
    }
}


/// The documentation answers only paths under `/swagger`.
pub proof fn law_documentation_lives_under_swagger(path: Seq<char>)
    requires
        swagger_route_of(segments_of(path)) != SwaggerRoute::NotMine,
    ensures
        segments_of(path).len() > 0,
        segments_of(path)[0] == "swagger"@,
{
}

/// A `.` at `d` with none after it is the last dot.
proof fn lemma_last_dot_at(s: Seq<char>, d: int)
    requires
        0 <= d < s.len(),
        s[d] == '.',
        forall|k: int| d < k < s.len() ==> s[k] != '.',
    ensures
        last_dot(s) == Some(d),
{
    let i = choose|i: int| 0 <= i < s.len() && s[i] == '.' && forall|k: int| i < k < s.len() ==> s[k] != '.';
    assert(0 <= i < s.len() && s[i] == '.' && forall|k: int| i < k < s.len() ==> s[k] != '.');
    assert(i == d) by {
        if i < d {
            assert(s[d] != '.');
        }
        if i > d {
            assert(s[i] != '.');
        }
    }
}

/// A name with a dot has a last one.
proof fn lemma_last_dot_exists(s: Seq<char>)
    requires
        exists|i: int| 0 <= i < s.len() && s[i] == '.',
    ensures
        exists|i: int| 0 <= i < s.len() && s[i] == '.' && forall|k: int| i < k < s.len() ==> s[k] != '.',
    decreases s.len(),
{
    if s.last() == '.' {
        assert(s[s.len() - 1] == '.');
    } else {
        let t = s.drop_last();
        let j = choose|i: int| 0 <= i < s.len() && s[i] == '.';
        assert(t[j] == '.');
        lemma_last_dot_exists(t);
        let i = choose|i: int| 0 <= i < t.len() && t[i] == '.' && forall|k: int| i < k < t.len() ==> t[k] != '.';
        assert(s[i] == '.');
        assert forall|k: int| i < k < s.len() implies s[k] != '.' by {
            if k < t.len() {
                assert(t[k] != '.');
            }
        }
    }
}

/// Characters equal once ASCII-lower-cased are both dots or neither.
proof fn lemma_dot_ignores_case(x: char, y: char)
    requires
        lower_code(x) == lower_code(y),
    ensures
        (x == '.') == (y == '.'),
{
    vstd::utf8::char_u32_cast(x, x as u32);
    vstd::utf8::char_u32_cast(y, y as u32);
    vstd::utf8::char_u32_cast('.', 46u32);
}

proof fn lemma_eq_ignore_case_congruent(x: Seq<char>, y: Seq<char>, z: Seq<char>)
    requires
        x.len() == y.len(),
        forall|j: int| 0 <= j < x.len() ==> lower_code(#[trigger] x[j]) == lower_code(y[j]),
    ensures
        eq_ignore_case(x, z) == eq_ignore_case(y, z),
{
    if eq_ignore_case(x, z) {
        assert forall|j: int| 0 <= j < y.len() implies #[trigger] lower_code(y[j]) == lower_code(z[j]) by {
            assert(lower_code(x[j]) == lower_code(z[j]));
        }
    }
    if eq_ignore_case(y, z) {
        assert forall|j: int| 0 <= j < x.len() implies #[trigger] lower_code(x[j]) == lower_code(z[j]) by {
            assert(lower_code(y[j]) == lower_code(z[j]));
        }
    }
}

/// The content type a file name announces does not depend on its ASCII case.
pub proof fn law_file_type_ignores_case(a: Seq<char>, b: Seq<char>)
    requires
        eq_ignore_case(a, b),
    ensures
        content_type_of_file(a) == content_type_of_file(b),
{
    assert forall|i: int| 0 <= i < a.len() implies (#[trigger] a[i] == '.') == (b[i] == '.') by {
        assert(lower_code(a[i]) == lower_code(b[i]));
        lemma_dot_ignores_case(a[i], b[i]);
    }
    if exists|i: int| 0 <= i < a.len() && a[i] == '.' {
        lemma_last_dot_exists(a);
        let d = choose|i: int| 0 <= i < a.len() && a[i] == '.' && forall|k: int| i < k < a.len() ==> a[k] != '.';
        lemma_last_dot_at(a, d);
        assert forall|k: int| d < k < b.len() implies b[k] != '.' by {
            assert(a[k] != '.');
        }
        assert(a[d] == '.');
        lemma_last_dot_at(b, d);
        let xa = a.subrange(d + 1, a.len() as int);
        let xb = b.subrange(d + 1, b.len() as int);
        assert forall|j: int| 0 <= j < xa.len() implies lower_code(#[trigger] xa[j]) == lower_code(xb[j]) by {
            assert(lower_code(a[d + 1 + j]) == lower_code(b[d + 1 + j]));
        }
        lemma_eq_ignore_case_congruent(xa, xb, "html"@);
        lemma_eq_ignore_case_congruent(xa, xb, "htm"@);
        lemma_eq_ignore_case_congruent(xa, xb, "css"@);
        lemma_eq_ignore_case_congruent(xa, xb, "js"@);
        lemma_eq_ignore_case_congruent(xa, xb, "json"@);
        lemma_eq_ignore_case_congruent(xa, xb, "yaml"@);
        lemma_eq_ignore_case_congruent(xa, xb, "yml"@);
        lemma_eq_ignore_case_congruent(xa, xb, "png"@);
        lemma_eq_ignore_case_congruent(xa, xb, "txt"@);
    } else {
        assert(!exists|i: int| 0 <= i < b.len() && b[i] == '.') by {
            if exists|i: int| 0 <= i < b.len() && b[i] == '.' {
                let i = choose|i: int| 0 <= i < b.len() && b[i] == '.';
                assert(a[i] == '.');
            }
        }
    }
}

/// The file name a documentation route serves, for the routes that serve a
/// fixed file.
pub open spec fn served_file_name(route: SwaggerRoute) -> Option<Seq<char>> {
    match route {
        SwaggerRoute::IndexPage => Some("index.html"@),
        SwaggerRoute::Css => Some("swagger-ui.css"@),
        SwaggerRoute::BundleJs => Some("swagger-ui-bundle.js"@),
        SwaggerRoute::StandalonePresetJs => Some("swagger-ui-standalone-preset.js"@),
        SwaggerRoute::Favicon32 => Some("favicon-32x32.png"@),
        SwaggerRoute::Favicon16 => Some("favicon-16x16.png"@),
        _ => None,
    }
}

/// Each fixed documentation file is served with the content type its file
/// name's extension announces, and a request reaches it by that file name in
/// any ASCII case: so a request `/swagger/<name>` for a fixed file is served
/// with the content type that `<name>` itself announces.
pub proof fn law_files_are_served_by_their_extension(segs: Seq<Seq<char>>)
    requires
        served_file_name(swagger_route_of(segs)) is Some,
    ensures
        segs.len() >= 2,
        eq_ignore_case(segs[1], served_file_name(swagger_route_of(segs))->0),
        route_content_type(swagger_route_of(segs)) == content_type_of_file(segs[1]),
        route_content_type(swagger_route_of(segs)) == content_type_of_file(
            served_file_name(swagger_route_of(segs))->0,
        ),
{
    let r = swagger_route_of(segs);
    lemma_served_file_types();
    assert(segs.len() >= 2);
    if r == SwaggerRoute::IndexPage {
        assert(eq_ignore_case(segs[1], "index.html"@));
        law_file_type_ignores_case(segs[1], "index.html"@);
    } else if r == SwaggerRoute::Css {
        assert(eq_ignore_case(segs[1], "swagger-ui.css"@));
        law_file_type_ignores_case(segs[1], "swagger-ui.css"@);
    } else if r == SwaggerRoute::BundleJs {
        assert(eq_ignore_case(segs[1], "swagger-ui-bundle.js"@));
        law_file_type_ignores_case(segs[1], "swagger-ui-bundle.js"@);
    } else if r == SwaggerRoute::StandalonePresetJs {
        assert(eq_ignore_case(segs[1], "swagger-ui-standalone-preset.js"@));
        law_file_type_ignores_case(segs[1], "swagger-ui-standalone-preset.js"@);
    } else if r == SwaggerRoute::Favicon32 {
        assert(eq_ignore_case(segs[1], "favicon-32x32.png"@));
        law_file_type_ignores_case(segs[1], "favicon-32x32.png"@);
    } else {
        assert(r == SwaggerRoute::Favicon16);
        assert(eq_ignore_case(segs[1], "favicon-16x16.png"@));
        law_file_type_ignores_case(segs[1], "favicon-16x16.png"@);
    }
}

proof fn lemma_served_file_types()
    ensures
        content_type_of_file("index.html"@) == Some(WebContentType::Html),
        content_type_of_file("swagger-ui.css"@) == Some(WebContentType::Css),
        content_type_of_file("swagger-ui-bundle.js"@) == Some(WebContentType::JavaScript),
        content_type_of_file("swagger-ui-standalone-preset.js"@) == Some(WebContentType::JavaScript),
        content_type_of_file("favicon-32x32.png"@) == Some(WebContentType::Png),
        content_type_of_file("favicon-16x16.png"@) == Some(WebContentType::Png),
{
    reveal_strlit("html");
    reveal_strlit("htm");
    reveal_strlit("css");
    reveal_strlit("js");
    reveal_strlit("json");
    reveal_strlit("yaml");
    reveal_strlit("yml");
    reveal_strlit("png");
    reveal_strlit("index.html");
    reveal_strlit("swagger-ui.css");
    reveal_strlit("swagger-ui-bundle.js");
    reveal_strlit("swagger-ui-standalone-preset.js");
    reveal_strlit("favicon-32x32.png");
    reveal_strlit("favicon-16x16.png");
    assert(eq_ignore_case("html"@, "html"@));
    assert(eq_ignore_case("css"@, "css"@));
    assert(eq_ignore_case("js"@, "js"@));
    assert(eq_ignore_case("png"@, "png"@));
    assert(!eq_ignore_case("css"@, "htm"@)) by {
        assert(lower_code("css"@[0]) != lower_code("htm"@[0]));
    }
    assert(!eq_ignore_case("png"@, "htm"@)) by {
        assert(lower_code("png"@[0]) != lower_code("htm"@[0]));
    }
    assert(!eq_ignore_case("png"@, "css"@)) by {
        assert(lower_code("png"@[0]) != lower_code("css"@[0]));
    }
    assert(!eq_ignore_case("png"@, "yml"@)) by {
        assert(lower_code("png"@[0]) != lower_code("yml"@[0]));
    }
    lemma_last_dot_at("index.html"@, 5);
    assert("index.html"@.subrange(6, 10) =~= "html"@);
    lemma_last_dot_at("swagger-ui.css"@, 10);
    assert("swagger-ui.css"@.subrange(11, 14) =~= "css"@);
    lemma_last_dot_at("swagger-ui-bundle.js"@, 17);
    assert("swagger-ui-bundle.js"@.subrange(18, 20) =~= "js"@);
    lemma_last_dot_at("swagger-ui-standalone-preset.js"@, 28);
    assert("swagger-ui-standalone-preset.js"@.subrange(29, 31) =~= "js"@);
    lemma_last_dot_at("favicon-32x32.png"@, 13);
    assert("favicon-32x32.png"@.subrange(14, 17) =~= "png"@);
    lemma_last_dot_at("favicon-16x16.png"@, 13);
    assert("favicon-16x16.png"@.subrange(14, 17) =~= "png"@);
}

/// Names equal to two texts ignoring ASCII case make those texts equal
/// ignoring ASCII case.
proof fn lemma_eq_ignore_case_through(x: Seq<char>, a: Seq<char>, b: Seq<char>)
    requires
        eq_ignore_case(x, a),
        eq_ignore_case(x, b),
    ensures
        eq_ignore_case(a, b),
{
    assert forall|i: int| 0 <= i < a.len() implies #[trigger] lower_code(a[i]) == lower_code(b[i]) by {
        assert(lower_code(x[i]) == lower_code(a[i]));
        assert(lower_code(x[i]) == lower_code(b[i]));
    }
}

/// A request for `/swagger/<name>`, with `<name>` the name of a fixed
/// documentation file in any ASCII case, reaches that file.
pub proof fn law_each_file_is_reached_in_any_case(segs: Seq<Seq<char>>, route: SwaggerRoute)
    requires
        served_file_name(route) is Some,
        segs.len() >= 2,
        segs[0] == "swagger"@,
        eq_ignore_case(segs[1], served_file_name(route)->0),
    ensures
        swagger_route_of(segs) == route,
{
    reveal_strlit("swagger");
    reveal_strlit("index.html");
    reveal_strlit("swagger-ui.css");
    reveal_strlit("swagger-ui-bundle.js");
    reveal_strlit("swagger-ui-standalone-preset.js");
    reveal_strlit("favicon-32x32.png");
    reveal_strlit("favicon-16x16.png");
    reveal_strlit("v1");
    let x = segs[1];
    assert(x.len() == served_file_name(route)->0.len());
    if route == SwaggerRoute::Favicon16 {
        assert(!eq_ignore_case(x, "favicon-32x32.png"@)) by {
            if eq_ignore_case(x, "favicon-32x32.png"@) {
                lemma_eq_ignore_case_through(x, "favicon-32x32.png"@, "favicon-16x16.png"@);
                assert(lower_code("favicon-32x32.png"@[8]) == lower_code("favicon-16x16.png"@[8]));
            }
        }
    }
    if route == SwaggerRoute::Favicon32 {
        assert(eq_ignore_case(x, "favicon-32x32.png"@));
    }
}

} // verus!
