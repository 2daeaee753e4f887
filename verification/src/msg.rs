//! The message resolver: from a request's method, path, reported token
//! outcomes and body text to the first operation to execute, together with
//! the token pair to attach to the response when rotation healed the
//! request.
//!
//! The route table is fixed and scanned in declaration order; the first
//! route whose method and pattern accept the request wins. A route names
//! the required privilege level, whether the path variable is bound as the
//! required subject, and where its payload comes from: the decoded body,
//! the extracted path variable, or the authenticated caller's identity.

use vstd::prelude::*;
use crate::auth::AuthError;
use crate::auth::Claims;
use crate::auth::ClaimsModel;
use crate::auth::RoleRequirement;
use crate::auth::RoleRequirementModel;
use crate::auth::TokenCheck;
use crate::auth::TokenCheckModel;
use crate::auth::TokenPair;
use crate::auth::TokenPairModel;
use crate::auth::check_and_refresh;
use crate::auth::spec_check_and_refresh;
use crate::auth::spec_satisfies;
use crate::entity::user::UserRole;
use crate::matcher::extract;
use crate::matcher::spec_extract;
use crate::matcher::spec_matches;
use crate::payload::CreateUserPayload;
use crate::payload::CreateUserPayloadModel;
use crate::payload::GetUserPayload;
use crate::payload::decode_create_user;
use crate::payload::spec_decode_create_user;

verus! {

/// The diagnostic a payload that fails the schema renders with.
pub const PAYLOAD_DIAGNOSTIC: &'static str
    = "expected a JSON object with members name, email and role";

/// Failures raised by resolution itself: no route accepts the request, or
/// the body does not satisfy the payload schema.
#[derive(Debug)]
pub enum Error {
    NotFound,
    JsonDeserializePayload(String),
}

/// Mathematical image of [`Error`].
pub enum ErrorModel {
    NotFound,
    JsonDeserializePayload(Seq<char>),
}

impl Error {
    pub open spec fn model(&self) -> ErrorModel {
        match self {
            Error::NotFound => ErrorModel::NotFound,
            Error::JsonDeserializePayload(d) => ErrorModel::JsonDeserializePayload(d@),
        }
    }
}

/// A request method, as far as the route table distinguishes them; any
/// method beyond those of the table is `Other` and matches no route.
#[derive(Clone, Copy, Debug, PartialEq, Eq, Structural)]
pub enum Method {
    Get,
    Post,
    Other,
}

/// Where a route's payload comes from.
#[derive(Clone, Copy, Debug, PartialEq, Eq, Structural)]
pub enum PayloadSource {
    Body,
    PathVariable,
    CallerIdentity,
}

/// A static route descriptor: method, path pattern, required privilege
/// level, whether the path variable is bound as the required subject, and
/// the payload strategy.
#[derive(Debug)]
pub struct Route {
    pub method: Method,
    pub pattern: String,
    pub level: UserRole,
    pub bind_path_var: bool,
    pub source: PayloadSource,
}

/// Mathematical image of [`Route`].
pub struct RouteModel {
    pub method: Method,
    pub pattern: Seq<char>,
    pub level: UserRole,
    pub bind_path_var: bool,
    pub source: PayloadSource,
}

impl Route {
    pub open spec fn model(&self) -> RouteModel {
        RouteModel {
            method: self.method,
            pattern: self.pattern@,
            level: self.level,
            bind_path_var: self.bind_path_var,
            source: self.source,
        }
    }
}

/// The fixed route table, in declaration order; the first match wins.
pub open spec fn spec_route_table() -> Seq<RouteModel> {
    seq![
        RouteModel {
            method: Method::Post,
            pattern: "/users"@,
            level: UserRole::Developer,
            bind_path_var: false,
            source: PayloadSource::Body,
        },
        RouteModel {
            method: Method::Get,
            pattern: "/users/@me"@,
            level: UserRole::Normal,
            bind_path_var: false,
            source: PayloadSource::CallerIdentity,
        },
        RouteModel {
            method: Method::Get,
            pattern: "/users/:user_id"@,
            level: UserRole::Normal,
            bind_path_var: true,
            source: PayloadSource::PathVariable,
        },
    ]
}

pub open spec fn routes_model(routes: Vec<Route>) -> Seq<RouteModel> {
    Seq::new(routes@.len(), |i: int| routes@[i].model())
}

/// Builds the route table.
pub fn route_table() -> (r: Vec<Route>)
    ensures
        routes_model(r) == spec_route_table(),
{
    let mut r: Vec<Route> = Vec::new();
    r.push(
        Route {
            method: Method::Post,
            pattern: String::from_str("/users"),
            level: UserRole::Developer,
            bind_path_var: false,
            source: PayloadSource::Body,
        },
    );
    r.push(
        Route {
            method: Method::Get,
            pattern: String::from_str("/users/@me"),
            level: UserRole::Normal,
            bind_path_var: false,
            source: PayloadSource::CallerIdentity,
        },
    );
    r.push(
        Route {
            method: Method::Get,
            pattern: String::from_str("/users/:user_id"),
            level: UserRole::Normal,
            bind_path_var: true,
            source: PayloadSource::PathVariable,
        },
    );
    proof {
        assert(routes_model(r) =~= spec_route_table());
    }
    r
}

/// The first route, from `rs`, whose method and pattern accept the
/// request.
pub open spec fn spec_find_route_from(rs: Seq<RouteModel>, method: Method, path: Seq<char>) -> Option<
    RouteModel,
>
    decreases rs.len(),
{
    if rs.len() == 0 {
        None
    } else if rs[0].method == method && spec_matches(path, rs[0].pattern) {
        Some(rs[0])
    } else {
        spec_find_route_from(rs.drop_first(), method, path)
    }
}

/// The route the fixed table resolves a request to, if any.
pub open spec fn spec_find_route(method: Method, path: Seq<char>) -> Option<RouteModel> {
    spec_find_route_from(spec_route_table(), method, path)
}

fn find_route_from(routes: &Vec<Route>, k: usize, method: Method, path: &str) -> (r: Option<usize>)
    requires
        k <= routes.len(),
    ensures
        match r {
            Some(i) => k <= i < routes.len() && spec_find_route_from(
                routes_model(*routes).skip(k as int),
                method,
                path@,
            ) == Some(routes_model(*routes)[i as int]),
            None => spec_find_route_from(routes_model(*routes).skip(k as int), method, path@)
                is None,
        },
    decreases routes.len() - k,
{
    if k == routes.len() {
        proof {
            assert(routes_model(*routes).skip(k as int) =~= Seq::<RouteModel>::empty());
        }
        None
    } else {
        let ghost tail = routes_model(*routes).skip(k as int);
        proof {
            assert(tail[0] == routes_model(*routes)[k as int]);
            assert(tail.drop_first() =~= routes_model(*routes).skip(k + 1));
        }
        let rt = &routes[k];
        if rt.method == method && crate::matcher::matches(path, rt.pattern.as_str()) {
            Some(k)
        } else {
            find_route_from(routes, k + 1, method, path)
        }
    }
}

/// Whether resolving `(method, path)` will decode the request body, so
/// that the body is read only for routes that need it.
pub open spec fn spec_needs_body(method: Method, path: Seq<char>) -> bool {
    match spec_find_route(method, path) {
        Some(rt) => rt.source is Body,
        None => false,
    }
}

pub fn needs_body(method: Method, path: &str) -> (r: bool)
    ensures
        r == spec_needs_body(method, path@),
{
    let routes = route_table();
    proof {
        assert(routes_model(routes).skip(0) =~= routes_model(routes));
    }
    match find_route_from(&routes, 0, method, path) {
        Some(i) => {
            let rt = &routes[i];
            rt.source == PayloadSource::Body
        },
        None => false,
    }
}

/// The tagged operation a request resolves to, with its validated payload.
#[derive(Clone, Debug, PartialEq, Eq)]
pub enum Msg {
    GetUser(GetUserPayload),
    CreateUser(CreateUserPayload),
}

/// Mathematical image of [`Msg`].
pub enum MsgModel {
    GetUser(Seq<char>),
    CreateUser(CreateUserPayloadModel),
}

impl Msg {
    pub open spec fn model(&self) -> MsgModel {
        match self {
            Msg::GetUser(p) => MsgModel::GetUser(p.id_or_email@),
            Msg::CreateUser(p) => MsgModel::CreateUser(p.model()),
        }
    }
}

/// Wraps a decoded payload; `inner` hands the payload back unchanged.
pub struct Wrap<P>(pub P);

impl<P> Wrap<P> {
    pub fn inner(self) -> (r: P)
        ensures
            r == self.0,
    {
        self.0
    }
}

/// The requirement a matched route puts on the caller: its level, and —
/// when the route binds the path variable — the extracted variable as the
/// required subject.
pub open spec fn spec_derived_requirement(rt: RouteModel, path: Seq<char>) -> RoleRequirementModel {
    let subject = if rt.bind_path_var {
        spec_extract(path, rt.pattern)
    } else {
        None
    };
    match rt.level {
        UserRole::Normal => RoleRequirementModel::Normal(subject),
        UserRole::Developer => RoleRequirementModel::Developer(subject),
    }
}

/// The whole resolution, as a function of the request and of what the
/// identity collaborator reported: the route is looked up first, the auth
/// gate decides next (so a subject mismatch fails before any payload is
/// built), and the payload is produced last.
pub open spec fn spec_http(
    method: Method,
    path: Seq<char>,
    access: TokenCheckModel,
    refresh: TokenCheckModel,
    issued: TokenPairModel,
    body: Seq<char>,
) -> Result<(MsgModel, Option<TokenPairModel>), crate::error::ErrorModel> {
    match spec_find_route(method, path) {
        None => Err(crate::error::ErrorModel::Msg(ErrorModel::NotFound)),
        Some(rt) => {
            let req = spec_derived_requirement(rt, path);
            match spec_check_and_refresh(access, refresh, issued, req) {
                Err(e) => Err(crate::error::ErrorModel::Auth(e)),
                Ok((claims, rot)) => match rt.source {
                    PayloadSource::Body => match spec_decode_create_user(body) {
                        Some(p) => Ok((MsgModel::CreateUser(p), rot)),
                        None => Err(
                            crate::error::ErrorModel::Msg(
                                ErrorModel::JsonDeserializePayload(PAYLOAD_DIAGNOSTIC@),
                            ),
                        ),
                    },
                    PayloadSource::PathVariable => match spec_extract(path, rt.pattern) {
                        Some(v) => Ok((MsgModel::GetUser(v), rot)),
                        None => Err(crate::error::ErrorModel::Msg(ErrorModel::NotFound)),
                    },
                    PayloadSource::CallerIdentity => Ok((MsgModel::GetUser(claims.user_id), rot)),
                },
            }
        },
    }
}

/// Mathematical image of a resolution outcome.
pub open spec fn resolution_model(
    r: Result<(Msg, Option<TokenPair>), crate::error::Error>,
) -> Result<(MsgModel, Option<TokenPairModel>), crate::error::ErrorModel> {
    match r {
        Ok((m, rot)) => Ok(
            (
                m.model(),
                match rot {
                    Some(t) => Some(t.model()),
                    None => None,
                },
            ),
        ),
        Err(e) => Err(e.model()),
    }
}

impl Msg {
    /// Resolves one request. `access` and `refresh` are what the identity
    /// collaborator reported about the two token cookies, and `issued` is
    /// the pair it would hand out on rotation; `body` is the request body
    /// (read only for routes that need one — see [`needs_body`]).
    pub fn http(
        method: Method,
        path: &str,
        access: TokenCheck,
        refresh: TokenCheck,
        issued: TokenPair,
        body: &str,
    ) -> (r: Result<(Msg, Option<TokenPair>), crate::error::Error>)
        ensures
            resolution_model(r) == spec_http(
                method,
                path@,
                access.model(),
                refresh.model(),
                issued.model(),
                body@,
            ),
    {
        let routes = route_table();
        proof {
            assert(routes_model(routes).skip(0) =~= routes_model(routes));
        }
        match find_route_from(&routes, 0, method, path) {
            None => Err(crate::error::Error::Msg(Error::NotFound)),
            Some(i) => {
                let rt = &routes[i];
                let subject: Option<String> = if rt.bind_path_var {
                    extract(path, rt.pattern.as_str())
                } else {
                    None
                };
                proof {
                    assert(subject.deep_view() == (if rt.model().bind_path_var {
                        spec_extract(path@, rt.model().pattern)
                    } else {
                        None::<Seq<char>>
                    }));
                }
                let req = match rt.level {
                    UserRole::Normal => RoleRequirement::Normal(subject),
                    UserRole::Developer => RoleRequirement::Developer(subject),
                };
                proof {
                    assert(req.model() == spec_derived_requirement(rt.model(), path@));
                }
                match check_and_refresh(access, refresh, issued, &req) {
                    Err(e) => Err(crate::error::Error::Auth(e)),
                    Ok((claims, rot)) => match rt.source {
                        PayloadSource::Body => match decode_create_user(body) {
                            Some(p) => Ok((Msg::CreateUser(p), rot)),
                            None => Err(
                                crate::error::Error::Msg(
                                    Error::JsonDeserializePayload(PAYLOAD_DIAGNOSTIC.to_owned()),
                                ),
                            ),
                        },
                        PayloadSource::PathVariable => match extract(path, rt.pattern.as_str()) {
                            Some(v) => Ok((Msg::GetUser(GetUserPayload { id_or_email: v }), rot)),
                            None => Err(crate::error::Error::Msg(Error::NotFound)),
                        },
                        PayloadSource::CallerIdentity => Ok(
                            (Msg::GetUser(GetUserPayload { id_or_email: claims.user_id }), rot),
                        ),
                    },
                }
            },
        }
    }
}

/// Resolution is deterministic: two resolutions of one request, under the
/// same reported token outcomes and the same body, are the same outcome —
/// the same message and the same rotation decision, or the same failure.
pub proof fn lemma_resolution_deterministic(
    method: Method,
    path: Seq<char>,
    access: TokenCheckModel,
    refresh: TokenCheckModel,
    issued: TokenPairModel,
    body: Seq<char>,
    r1: Result<(Msg, Option<TokenPair>), crate::error::Error>,
    r2: Result<(Msg, Option<TokenPair>), crate::error::Error>,
)
    requires
        resolution_model(r1) == spec_http(method, path, access, refresh, issued, body),
        resolution_model(r2) == spec_http(method, path, access, refresh, issued, body),
    ensures
        resolution_model(r1) == resolution_model(r2),
{
}

/// Rotation heals a request: when the access token is invalid but the
/// refresh token identifies a caller that satisfies the matched route's
/// requirement — and the payload itself is producible — resolution
/// succeeds and returns the freshly issued pair, never dropping it.
pub proof fn lemma_rotation_heals_resolution(
    method: Method,
    path: Seq<char>,
    rt: RouteModel,
    c: ClaimsModel,
    issued: TokenPairModel,
    body: Seq<char>,
)
    requires
        spec_find_route(method, path) == Some(rt),
        spec_satisfies(c, spec_derived_requirement(rt, path)),
        rt.source is Body ==> spec_decode_create_user(body) is Some,
        rt.source is PathVariable ==> spec_extract(path, rt.pattern) is Some,
    ensures
        spec_http(method, path, TokenCheckModel::Invalid, TokenCheckModel::Valid(c), issued, body)
            matches Ok((m, rot)) && rot == Some(issued),
{
}

/// When both tokens are invalid, a routed request fails with the auth
/// gate's `InvalidCredentials` and produces no message.
pub proof fn lemma_resolution_both_invalid(
    method: Method,
    path: Seq<char>,
    issued: TokenPairModel,
    body: Seq<char>,
)
    requires
        spec_find_route(method, path) is Some,
    ensures
        spec_http(method, path, TokenCheckModel::Invalid, TokenCheckModel::Invalid, issued, body)
            == Err::<(MsgModel, Option<TokenPairModel>), crate::error::ErrorModel>(
            crate::error::ErrorModel::Auth(AuthError::InvalidCredentials),
        ),
{
}

} // verus!
