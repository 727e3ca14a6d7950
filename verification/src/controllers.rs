//! What controllers declare about their actions, and the small input types
//! actions read.
use vstd::prelude::*;
use crate::headers::HeaderValue;
use crate::form_data::FormDataItem;
use crate::output::{HttpFailResult, text_output};
use crate::result_builder::missing_parameter_text;
use vstd::utf8::*;

verus! {

/// A GET action: its route, the routes it used to have, and the model keys
/// its route carries.
pub trait GetAction {
    fn get_route(&self) -> &'static str;

    fn get_deprecated_routes(&self) -> Option<Vec<&'static str>>;

    fn get_model_routes(&self) -> Option<Vec<&'static str>>;
}

/// A POST action.
pub trait PostAction {
    fn get_route(&self) -> &'static str;

    fn get_deprecated_routes(&self) -> Option<Vec<&'static str>>;

    fn get_model_routes(&self) -> Option<Vec<&'static str>>;
}

/// A PUT action.
pub trait PutAction {
    fn get_route(&self) -> &'static str;

    fn get_deprecated_routes(&self) -> Option<Vec<&'static str>>;

    fn get_model_routes(&self) -> Option<Vec<&'static str>>;
}

/// A DELETE action.
pub trait DeleteAction {
    fn get_route(&self) -> &'static str;

    fn get_deprecated_routes(&self) -> Option<Vec<&'static str>>;

    fn get_model_routes(&self) -> Option<Vec<&'static str>>;
}

/// An OPTIONS action.
pub trait OptionsAction {
    fn get_route(&self) -> &'static str;

    fn get_deprecated_routes(&self) -> Option<Vec<&'static str>>;

    fn get_model_routes(&self) -> Option<Vec<&'static str>>;
}

/// Whether a request must carry credentials to reach an action.
#[derive(Clone, Debug)]
pub enum ShouldBeAuthorized {
    Yes,
    /// Credentials that hold each of these claims.
    YesWithClaims(Vec<String>),
    No,
    /// Whatever the server is configured with.
    UseGlobal,
}

/// An action that says whether it must be authorized.
pub trait GetShouldBeAuthorized {
    fn get_should_be_authorized(&self) -> &ShouldBeAuthorized;
}

/// A named value taken out of a request path.
pub struct PathValue<'s> {
    pub name: &'static str,
    pub value: &'s str,
}

impl<'s> PathValue<'s> {
    pub fn new(name: &'static str, value: &'s str) -> (r: Self)
        ensures
            r.name == name,
            r.value == value,
    {
        PathValue { name, value }
    }

    pub fn as_str(&self) -> (r: &str)
        ensures
            r@ == self.value@,
    {
        self.value
    }
}

/// A password typed into a form: kept apart from ordinary strings so that it
/// is documented and handled as one.
pub struct PasswordHttpInputField(String);

impl View for PasswordHttpInputField {
    type V = Seq<char>;

    closed spec fn view(&self) -> Seq<char> {
        self.0@
    }
}

impl PasswordHttpInputField {
    pub fn new(value: String) -> (r: Self)
        ensures
            r@ == value@,
    {
        PasswordHttpInputField(value)
    }

    pub fn as_str(&self) -> (r: &str)
        ensures
            r@ == self@,
    {
        self.0.as_str()
    }

    pub fn into_string(self) -> (r: String)
        ensures
            r@ == self@,
    {
        self.0
    }

    /// Reads the field out of a header; a value that is not UTF-8 is refused.
    pub fn try_from_header(header: HeaderValue) -> (r: Result<Self, HttpFailResult>)
        ensures
            match r {
                Ok(p) => valid_utf8(header.value@) && p@ == decode_utf8(header.value@),
                Err(e) => !valid_utf8(header.value@) && e.output@ == text_output(
                    400,
                    "Can not parse header value in header"@,
                ),
            },
    {
        let s = header.as_str()?;
        Ok(PasswordHttpInputField(String::from_str(s)))
    }

    /// Reads the field out of a form-data item: a value item with a value.
    pub fn try_from_form_data(item: FormDataItem) -> (r: Result<Self, HttpFailResult>)
        ensures
            match item {
                FormDataItem::ValueAsString { name, value } => match value {
                    Some(v) => r matches Ok(p) && p@ == v@,
                    None => r matches Err(e) && e.output@ == text_output(
                        400,
                        missing_parameter_text(name@, "FormData"@),
                    ),
                },
                FormDataItem::File { name, .. } => r matches Err(e) && e.output@ == text_output(
                    400,
                    "Validation error: "@ + (name@ + " Can not be read from FormData file"@),
                ),
            },
    {
        match item {
            FormDataItem::ValueAsString { name, value } => match value {
                Some(v) => Ok(PasswordHttpInputField::new(String::from_str(v))),
                None => Err(HttpFailResult::required_parameter_is_missing(name, "FormData")),
            },
            FormDataItem::File { name, .. } => {
                let mut text = String::from_str(name);
                text.append(" Can not be read from FormData file");
                Err(HttpFailResult::as_validation_error(text.as_str()))
            },
        }
    }
}

impl From<String> for PasswordHttpInputField {
    fn from(value: String) -> (r: Self) {
        PasswordHttpInputField(value)
    }
}

impl vstd::std_specs::convert::FromSpecImpl<String> for PasswordHttpInputField {
    open spec fn obeys_from_spec() -> bool {
        true
    }

    closed spec fn from_spec(value: String) -> Self {
        PasswordHttpInputField(value)
    }
}

impl From<PasswordHttpInputField> for String {
    fn from(value: PasswordHttpInputField) -> (r: Self) {
        value.0
    }
}

impl vstd::std_specs::convert::FromSpecImpl<PasswordHttpInputField> for String {
    open spec fn obeys_from_spec() -> bool {
        true
    }

    closed spec fn from_spec(value: PasswordHttpInputField) -> Self {
        value.0
    }
}

/// `str::to_lowercase` of a text: Unicode lower-casing, which can change the
/// length of the text.
pub uninterp spec fn lowercase(s: Seq<char>) -> Seq<char>;

/// `s.to_lowercase()`.
#[verifier::external_body]
fn to_lowercase_string(s: &str) -> (r: String)
    ensures
        r@ == lowercase(s@),
{
    s.to_lowercase()
}

/// The text of the refusal to register a route twice.
pub open spec fn already_registered_text(route: Seq<char>) -> Seq<char> {
    "Route "@ + route + " is already registered"@
}

/// The actions of one HTTP method, each under its own route; two routes that
/// are the same once lower-cased are the same route.
pub struct HttpActions<A> {
    actions: Vec<A>,
    routes: Vec<String>,
    keys: Vec<String>,
    action_verb: String,
}

impl<A> HttpActions<A> {
    /// The registered actions, in the order they were registered.
    pub closed spec fn actions_spec(&self) -> Seq<A> {
        self.actions@
    }

    /// The method the actions answer.
    pub closed spec fn verb(&self) -> Seq<char> {
        self.action_verb@
    }

    pub fn action_verb(&self) -> (r: &str)
        ensures
            r@ == self.verb(),
    {
        self.action_verb.as_str()
    }

    /// Their routes, in the same order.
    pub closed spec fn routes_spec(&self) -> Seq<Seq<char>> {
        self.routes@.map_values(|r: String| r@)
    }

    /// Each action has a route, and no two routes are the same route.
    pub closed spec fn wf(&self) -> bool {
        &&& self.actions@.len() == self.routes@.len()
        &&& self.keys@.len() == self.routes@.len()
        &&& forall|i: int| 0 <= i < self.keys@.len() ==> #[trigger] self.keys@[i]@ == lowercase(self.routes@[i]@)
        &&& forall|i: int, j: int|
            0 <= i < j < self.keys@.len() ==> #[trigger] lowercase(self.routes@[i]@) != #[trigger] lowercase(
                self.routes@[j]@,
            )
    }

    pub fn new(action_verb: String) -> (r: Self)
        ensures
            r.wf(),
            r.actions_spec().len() == 0,
            r.verb() == action_verb@,
    {
        HttpActions { actions: Vec::new(), routes: Vec::new(), keys: Vec::new(), action_verb }
    }

    /// Registers `action` under `route`, refused when the route is already
    /// registered (compared lower-cased).
    pub fn register(&mut self, action: A, route: String) -> (r: Result<(), String>)
        requires
            old(self).wf(),
        ensures
            final(self).wf(),
            final(self).verb() == old(self).verb(),
            match r {
                Ok(()) => {
                    &&& forall|i: int|
                        0 <= i < old(self).routes_spec().len() ==> lowercase(
                            #[trigger] old(self).routes_spec()[i],
                        ) != lowercase(route@)
                    &&& final(self).actions_spec() == old(self).actions_spec().push(action)
                    &&& final(self).routes_spec() == old(self).routes_spec().push(route@)
                },
                Err(e) => {
                    &&& exists|i: int|
                        0 <= i < old(self).routes_spec().len() && lowercase(
                            #[trigger] old(self).routes_spec()[i],
                        ) == lowercase(route@)
                    &&& e@ == already_registered_text(route@)
                    &&& final(self).actions_spec() == old(self).actions_spec()
                    &&& final(self).routes_spec() == old(self).routes_spec()
                },
            },
    {
        let key = to_lowercase_string(route.as_str());
        let n = self.keys.len();
        let mut i: usize = 0;
        while i < n
            invariant
                n == self.keys@.len(),
                self.wf(),
                key@ == lowercase(route@),
                i <= n,
                forall|k: int| 0 <= k < i ==> lowercase(#[trigger] self.routes@[k]@) != lowercase(route@),
            decreases n - i,
        {
            if crate::text::str_equals(self.keys[i].as_str(), key.as_str()) {
                assert(self.routes_spec()[i as int] == self.routes@[i as int]@);
                let mut text = String::from_str("Route ");
                text.append(route.as_str());
                text.append(" is already registered");
                return Err(text);
            }
            i = i + 1;
        }
        let ghost old_routes = self.routes_spec();
        self.actions.push(action);
        self.routes.push(route);
        self.keys.push(key);
        proof {
            assert(self.routes_spec() =~= old_routes.push(route@));
            assert forall|a: int, b: int|
                0 <= a < b < self.keys@.len() implies #[trigger] lowercase(self.routes@[a]@)
                != #[trigger] lowercase(self.routes@[b]@) by {
                if b == n {
                    assert(lowercase(self.routes@[a]@) != lowercase(route@));
                }
            }
        }
        Ok(())
    }

    pub fn get_actions(&self) -> (r: &Vec<A>)
        ensures
            r@ == self.actions_spec(),
    {
        &self.actions
    }

    /// The action a request goes to: the first, in the order of registration,
    /// whose route matches its path. `route_matches[i]` tells whether the
    /// route of action `i` matches; an action past its end does not match.
    pub fn first_matching_action(&self, route_matches: &Vec<bool>) -> (r: Option<usize>)
        ensures
            match r {
                Some(i) => {
                    &&& i < self.actions_spec().len()
                    &&& i < route_matches@.len()
                    &&& route_matches@[i as int]
                    &&& forall|j: int| 0 <= j < i ==> !#[trigger] route_matches@[j]
                },
                None => forall|j: int|
                    0 <= j < self.actions_spec().len() && j < route_matches@.len()
                        ==> !#[trigger] route_matches@[j],
            },
    {
        let n = if self.actions.len() < route_matches.len() {
            self.actions.len()
        } else {
            route_matches.len()
        };
        let mut i: usize = 0;
        while i < n
            invariant
                n <= self.actions@.len(),
                n <= route_matches@.len(),
                n == self.actions@.len() || n == route_matches@.len(),
                i <= n,
                forall|j: int| 0 <= j < i ==> !#[trigger] route_matches@[j],
            decreases n - i,
        {
            if route_matches[i] {
                return Some(i);
            }
            i = i + 1;
        }
        None
    }
}


/// No two actions of one method share a route, once routes are lower-cased.
pub proof fn law_routes_are_distinct<A>(actions: &HttpActions<A>)
    requires
        actions.wf(),
    ensures
        forall|i: int, j: int|
            0 <= i < j < actions.routes_spec().len() ==> #[trigger] lowercase(
                actions.routes_spec()[i],
            ) != #[trigger] lowercase(actions.routes_spec()[j]),
{
    assert forall|i: int, j: int|
        0 <= i < j < actions.routes_spec().len() implies #[trigger] lowercase(
            actions.routes_spec()[i],
        ) != #[trigger] lowercase(actions.routes_spec()[j]) by {
        assert(lowercase(actions.routes@[i]@) != lowercase(actions.routes@[j]@));
    }
}


/// Whether a request may reach an action.
#[derive(Debug)]
pub enum AuthorizationResult {
    Allowed,
    /// It carries no credentials.
    NotAuthenticated,
    /// Its credentials lack this claim.
    NotAuthorized(String),
}

/// What becomes of a request once its authorization is known.
pub enum AuthorizationAnswer {
    /// Hand it to the action.
    RunAction,
    /// Answer with the error the application's factory makes for a request
    /// without credentials.
    FactoryNotAuthenticated,
    /// Answer with the error the application's factory makes for credentials
    /// that lack the claim.
    FactoryNotAuthorized(String),
    /// Answer with this error.
    Refuse(HttpFailResult),
}

/// The answer to a request with the given authorization: an allowed request
/// reaches its action; a refused one gets the application's own error when it
/// has an error factory, `401` otherwise.
pub fn authorization_answer(result: AuthorizationResult, has_error_factory: bool) -> (r: AuthorizationAnswer)
    ensures
        match result {
            AuthorizationResult::Allowed => r is RunAction,
            AuthorizationResult::NotAuthenticated => if has_error_factory {
                r is FactoryNotAuthenticated
            } else {
                r matches AuthorizationAnswer::Refuse(e) && e.output@ == text_output(
                    401,
                    crate::result_builder::unauthorized_text(Some("No session credentials are found"@)),
                )
            },
            AuthorizationResult::NotAuthorized(claim) => if has_error_factory {
                r matches AuthorizationAnswer::FactoryNotAuthorized(c) && c@ == claim@
            } else {
                r matches AuthorizationAnswer::Refuse(e) && e.output@ == text_output(
                    401,
                    crate::result_builder::unauthorized_text(None),
                )
            },
        },
{
    match result {
        AuthorizationResult::Allowed => AuthorizationAnswer::RunAction,
        AuthorizationResult::NotAuthenticated => {
            if has_error_factory {
                AuthorizationAnswer::FactoryNotAuthenticated
            } else {
                AuthorizationAnswer::Refuse(
                    HttpFailResult::as_unauthorized(Some("No session credentials are found")),
                )
            }
        },
        AuthorizationResult::NotAuthorized(claim) => {
            if has_error_factory {
                AuthorizationAnswer::FactoryNotAuthorized(claim)
            } else {
                AuthorizationAnswer::Refuse(HttpFailResult::as_unauthorized(None))
            }
        },
    }
}

} // verus!
