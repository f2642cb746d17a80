//! Discovery, published keys, token introspection, profiles and client registration.

use crate::agents;
use crate::authorize;
use crate::cookies;
use crate::crypto;
use crate::http;
use crate::http::{AppState, BodyV, HeadersV, Reply, ReplyV, RequestHeaders, StateV};
use crate::json;
use crate::json::JsonV;
use crate::login;
use crate::store;
use crate::text;
use crate::tokens;
use crate::tokens::{Claims, ClaimsV};
use serde_json::Value;
use vstd::prelude::*;
use vstd::string::*;

verus! {

// ---------------------------------------------------------------------------------------------
// Discovery
// ---------------------------------------------------------------------------------------------

/// A URL of the issuer.
fn endpoint(iss: &str, path: &str) -> (r: Value)
    ensures
        json::json_view(r) == JsonV::Str(iss@ + path@),
{
    let mut s: String = iss.to_owned();
    s.append(path);
    json::json_str(s)
}

/// Adds a text to a list.
fn add_text(v: &mut Vec<String>, s: &str)
    ensures
        text::list_view(final(v)@) == text::list_view(old(v)@).push(s@),
{
    v.push(s.to_owned());
    assert(text::list_view(v@) =~= text::list_view(old(v)@).push(s@));
}

/// What the discovery document says.
pub open spec fn discovery_members(iss: Seq<char>) -> Seq<(Seq<char>, JsonV)> {
    seq![
        ("issuer"@, JsonV::Str(iss)),
        ("authorization_endpoint"@, JsonV::Str(iss + "/authorize"@)),
        ("token_endpoint"@, JsonV::Str(iss + "/token"@)),
        ("userinfo_endpoint"@, JsonV::Str(iss + "/userinfo"@)),
        ("jwks_uri"@, JsonV::Str(iss + "/jwks.json"@)),
        ("introspection_endpoint"@, JsonV::Str(iss + "/introspect"@)),
        ("registration_endpoint"@, JsonV::Str(iss + "/register-client"@)),
        ("response_types_supported"@, agents::texts_json(seq!["code"@])),
        ("grant_types_supported"@, agents::texts_json(seq!["authorization_code"@, "refresh_token"@])),
        ("subject_types_supported"@, agents::texts_json(seq!["public"@])),
        ("id_token_signing_alg_values_supported"@, agents::texts_json(seq!["RS256"@])),
        ("code_challenge_methods_supported"@, agents::texts_json(seq!["S256"@])),
        ("scopes_supported"@, agents::texts_json(seq!["openid"@, "profile"@, "email"@, "offline_access"@])),
        ("token_endpoint_auth_methods_supported"@, agents::texts_json(seq!["client_secret_post"@, "client_secret_basic"@, "none"@])),
        ("claims_supported"@, agents::texts_json(seq!["sub"@, "email"@, "name"@, "iss"@, "aud"@, "exp"@, "iat"@])),
    ]
}

fn response_types_supported() -> (r: Value)
    ensures
        json::json_view(r) == agents::texts_json(seq!["code"@]),
{
    let mut v: Vec<String> = Vec::new();
    add_text(&mut v, "code");
    assert(text::list_view(v@) =~= seq!["code"@]);
    agents::make_texts_json(&v)
}

fn grant_types_supported() -> (r: Value)
    ensures
        json::json_view(r) == agents::texts_json(seq!["authorization_code"@, "refresh_token"@]),
{
    let mut v: Vec<String> = Vec::new();
    add_text(&mut v, "authorization_code");
    add_text(&mut v, "refresh_token");
    assert(text::list_view(v@) =~= seq!["authorization_code"@, "refresh_token"@]);
    agents::make_texts_json(&v)
}

fn subject_types_supported() -> (r: Value)
    ensures
        json::json_view(r) == agents::texts_json(seq!["public"@]),
{
    let mut v: Vec<String> = Vec::new();
    add_text(&mut v, "public");
    assert(text::list_view(v@) =~= seq!["public"@]);
    agents::make_texts_json(&v)
}

fn id_token_signing_alg_values_supported() -> (r: Value)
    ensures
        json::json_view(r) == agents::texts_json(seq!["RS256"@]),
{
    let mut v: Vec<String> = Vec::new();
    add_text(&mut v, "RS256");
    assert(text::list_view(v@) =~= seq!["RS256"@]);
    agents::make_texts_json(&v)
}

fn code_challenge_methods_supported() -> (r: Value)
    ensures
        json::json_view(r) == agents::texts_json(seq!["S256"@]),
{
    let mut v: Vec<String> = Vec::new();
    add_text(&mut v, "S256");
    assert(text::list_view(v@) =~= seq!["S256"@]);
    agents::make_texts_json(&v)
}

fn scopes_supported() -> (r: Value)
    ensures
        json::json_view(r) == agents::texts_json(seq!["openid"@, "profile"@, "email"@, "offline_access"@]),
{
    let mut v: Vec<String> = Vec::new();
    add_text(&mut v, "openid");
    add_text(&mut v, "profile");
    add_text(&mut v, "email");
    add_text(&mut v, "offline_access");
    assert(text::list_view(v@) =~= seq!["openid"@, "profile"@, "email"@, "offline_access"@]);
    agents::make_texts_json(&v)
}

fn token_endpoint_auth_methods_supported() -> (r: Value)
    ensures
        json::json_view(r) == agents::texts_json(seq!["client_secret_post"@, "client_secret_basic"@, "none"@]),
{
    let mut v: Vec<String> = Vec::new();
    add_text(&mut v, "client_secret_post");
    add_text(&mut v, "client_secret_basic");
    add_text(&mut v, "none");
    assert(text::list_view(v@) =~= seq!["client_secret_post"@, "client_secret_basic"@, "none"@]);
    agents::make_texts_json(&v)
}

fn claims_supported() -> (r: Value)
    ensures
        json::json_view(r) == agents::texts_json(seq!["sub"@, "email"@, "name"@, "iss"@, "aud"@, "exp"@, "iat"@]),
{
    let mut v: Vec<String> = Vec::new();
    add_text(&mut v, "sub");
    add_text(&mut v, "email");
    add_text(&mut v, "name");
    add_text(&mut v, "iss");
    add_text(&mut v, "aud");
    add_text(&mut v, "exp");
    add_text(&mut v, "iat");
    assert(text::list_view(v@) =~= seq!["sub"@, "email"@, "name"@, "iss"@, "aud"@, "exp"@, "iat"@]);
    agents::make_texts_json(&v)
}

/// The discovery document.
pub open spec fn discovery_reply(state: StateV) -> ReplyV {
    http::plain(200, BodyV::Json(json::object(discovery_members(state.config.issuer())))).cached(
        "public, max-age=300"@,
    )
}

/// The discovery document.
pub fn discovery(state: &AppState) -> (r: Reply)
    ensures
        r@ == discovery_reply(state@),
{
    let iss: String = state.config.issuer();
    let mut p: Vec<(String, Value)> = Vec::new();
    p.push(("issuer".to_owned(), json::json_str(iss.clone())));
    p.push(("authorization_endpoint".to_owned(), endpoint(iss.as_str(), "/authorize")));
    p.push(("token_endpoint".to_owned(), endpoint(iss.as_str(), "/token")));
    p.push(("userinfo_endpoint".to_owned(), endpoint(iss.as_str(), "/userinfo")));
    p.push(("jwks_uri".to_owned(), endpoint(iss.as_str(), "/jwks.json")));
    p.push(("introspection_endpoint".to_owned(), endpoint(iss.as_str(), "/introspect")));
    p.push(("registration_endpoint".to_owned(), endpoint(iss.as_str(), "/register-client")));
    p.push(("response_types_supported".to_owned(), response_types_supported()));
    p.push(("grant_types_supported".to_owned(), grant_types_supported()));
    p.push(("subject_types_supported".to_owned(), subject_types_supported()));
    p.push(("id_token_signing_alg_values_supported".to_owned(), id_token_signing_alg_values_supported()));
    p.push(("code_challenge_methods_supported".to_owned(), code_challenge_methods_supported()));
    p.push(("scopes_supported".to_owned(), scopes_supported()));
    p.push(("token_endpoint_auth_methods_supported".to_owned(), token_endpoint_auth_methods_supported()));
    p.push(("claims_supported".to_owned(), claims_supported()));
    assert(json::pair_views(p@) =~= discovery_members(iss@));
    Reply::json(200, json::json_object(p)).cached("public, max-age=300")
}

/// The published keys.
pub open spec fn jwks_reply(state: StateV) -> ReplyV {
    http::plain(
        200,
        BodyV::Json(json::object(seq![("keys"@, JsonV::Arr(seq![crypto::jwk_view(state.key)]))])),
    ).cached("public, max-age=300"@)
}

/// The published keys.
pub fn jwks(state: &AppState) -> (r: Reply)
    ensures
        r@ == jwks_reply(state@),
{
    let mut keys: Vec<Value> = Vec::new();
    keys.push(state.key.jwk());
    assert(json::views(keys@) =~= seq![crypto::jwk_view(state.key@)]);
    let mut p: Vec<(String, Value)> = Vec::new();
    p.push(("keys".to_owned(), json::json_array(keys)));
    assert(json::pair_views(p@) =~= seq![("keys"@, JsonV::Arr(seq![crypto::jwk_view(state.key@)]))]);
    Reply::json(200, json::json_object(p)).cached("public, max-age=300")
}

/// The sign of life.
pub open spec fn health_reply() -> ReplyV {
    http::plain(
        200,
        BodyV::Json(json::object(seq![("status"@, JsonV::Str("ok"@)), ("service"@, JsonV::Str("argus"@))])),
    )
}

/// The sign of life.
pub fn health() -> (r: Reply)
    ensures
        r@ == health_reply(),
{
    let mut p: Vec<(String, Value)> = Vec::new();
    p.push(("status".to_owned(), json::json_str("ok".to_owned())));
    p.push(("service".to_owned(), json::json_str("argus".to_owned())));
    assert(json::pair_views(p@) =~= seq![("status"@, JsonV::Str("ok"@)), ("service"@, JsonV::Str("argus"@))]);
    Reply::json(200, json::json_object(p))
}

// ---------------------------------------------------------------------------------------------
// Profiles
// ---------------------------------------------------------------------------------------------

/// What the bearer token of a request says.
pub open spec fn bearer_view(state: StateV, headers: HeadersV, now: u64) -> Result<ClaimsV, tokens::TokenError> {
    tokens::verified(state.key, state.config.issuer(), cookies::bearer(headers), now)
}

/// The reply to a request with a bad bearer token.
pub open spec fn invalid_token() -> ReplyV {
    http::plain(401, BodyV::Json(agents::error_json("invalid_token"@)))
}

/// What the bearer token of a request says, or the reply that refuses it.
pub fn bearer_claims(state: &AppState, headers: &RequestHeaders, now: u64) -> (r: Result<Claims, Reply>)
    ensures
        match bearer_view(state@, headers@, now) {
            Ok(c) => r is Ok && r->Ok_0@ == c,
            Err(_) => r is Err && r->Err_0@ == invalid_token(),
        },
{
    let token: String = cookies::bearer_token(headers);
    let issuer: String = state.config.issuer();
    match tokens::verify_at(&state.key, issuer.as_str(), token.as_str(), now) {
        Ok(c) => Ok(c),
        Err(_) => Err(Reply::json(401, agents::make_error_json("invalid_token"))),
    }
}

/// The profile of an agent.
pub open spec fn agent_profile(state: StateV, c: ClaimsV) -> Seq<(Seq<char>, JsonV)> {
    seq![
        ("sub"@, JsonV::Str(c.sub)),
        ("kind"@, JsonV::Str("agent"@)),
        ("agent_id"@, JsonV::Str(c.aud)),
        ("acting_for"@, JsonV::Str(login::or_empty(c.email))),
        ("name"@, JsonV::Str(match state.store.with_agent(c.aud) {
            Some(a) => a.name,
            None => Seq::empty(),
        })),
    ]
}

/// The profile of a person.
pub open spec fn person_profile(state: StateV, c: ClaimsV) -> Seq<(Seq<char>, JsonV)> {
    match state.store.with_id(c.sub) {
        Some(u) => seq![
            ("sub"@, JsonV::Str(u.id)),
            ("kind"@, JsonV::Str("human"@)),
            ("email"@, JsonV::Str(u.email)),
            ("name"@, JsonV::Str(u.name)),
        ],
        None => seq![("sub"@, JsonV::Str(c.sub))],
    }
}

/// The profile of the person or agent of a bearer token.
pub open spec fn userinfo_reply(state: StateV, headers: HeadersV, now: u64) -> ReplyV {
    match bearer_view(state, headers, now) {
        Err(_) => invalid_token(),
        Ok(c) => http::plain(
            200,
            BodyV::Json(
                json::object(
                    if text::has_prefix(c.aud, "agt_"@) {
                        agent_profile(state, c)
                    } else {
                        person_profile(state, c)
                    },
                ),
            ),
        ),
    }
}

/// The profile of the person or agent of a bearer token, at a point in time.
pub fn userinfo_at(state: &AppState, headers: &RequestHeaders, now: u64) -> (r: Reply)
    ensures
        r@ == userinfo_reply(state@, headers@, now),
{
    let claims: Claims = match bearer_claims(state, headers, now) {
        Ok(c) => c,
        Err(reply) => {
            return reply;
        },
    };
    let mut p: Vec<(String, Value)> = Vec::new();
    if text::starts_with(claims.aud.as_str(), "agt_") {
        let name: String = match state.store.agent_by_id(claims.aud.as_str()) {
            Ok(Some(a)) => a.name,
            _ => login::text_or_empty(None),
        };
        p.push(("sub".to_owned(), json::json_str(claims.sub.clone())));
        p.push(("kind".to_owned(), json::json_str("agent".to_owned())));
        p.push(("agent_id".to_owned(), json::json_str(claims.aud.clone())));
        p.push(("acting_for".to_owned(), json::json_str(login::text_or_empty(text::copy_opt(&claims.email)))));
        p.push(("name".to_owned(), json::json_str(name)));
        assert(json::pair_views(p@) =~= agent_profile(state@, claims@));
    } else {
        match state.store.user_by_id(claims.sub.as_str()) {
            Ok(Some(u)) => {
                p.push(("sub".to_owned(), json::json_str(u.id)));
                p.push(("kind".to_owned(), json::json_str("human".to_owned())));
                p.push(("email".to_owned(), json::json_str(u.email)));
                p.push(("name".to_owned(), json::json_str(u.name)));
            },
            _ => {
                p.push(("sub".to_owned(), json::json_str(claims.sub.clone())));
            },
        }
        assert(json::pair_views(p@) =~= person_profile(state@, claims@));
    }
    Reply::json(200, json::json_object(p))
}

/// The profile of the person or agent of a bearer token.
pub fn userinfo(state: &AppState, headers: &RequestHeaders) -> (r: Reply)
    ensures
        exists|now: u64| r@ == #[trigger] userinfo_reply(state@, headers@, now),
{
    let now: u64 = tokens::now_epoch();
    userinfo_at(state, headers, now)
}

// ---------------------------------------------------------------------------------------------
// Introspection
// ---------------------------------------------------------------------------------------------

/// A request to look into a token.
#[derive(Debug)]
pub struct IntrospectRequest {
    pub token: String,
}

/// Whether the one who asks may look into tokens: a registered client with a secret, which it proves
/// to have, and with a name that starts with `svc_`.
pub open spec fn may_introspect(state: StateV, headers: HeadersV) -> bool {
    match cookies::basic(headers) {
        None => false,
        Some(cred) => text::has_prefix(cred.0, "svc_"@) && match state.store.with_client(cred.0) {
            None => false,
            Some(c) => match c.secret_hash {
                None => false,
                Some(h) => crypto::password_matches(cred.1, h),
            },
        },
    }
}

fn check_caller(state: &AppState, headers: &RequestHeaders) -> (r: bool)
    ensures
        r == may_introspect(state@, headers@),
{
    let (id, secret) = match cookies::basic_credentials(headers) {
        Some(c) => c,
        None => {
            return false;
        },
    };
    if !text::starts_with(id.as_str(), "svc_") {
        return false;
    }
    match state.store.client(id.as_str()) {
        Ok(Some(c)) => match &c.secret_hash {
            Some(h) => crypto::verify_password(secret.as_str(), h.as_str()),
            None => false,
        },
        _ => false,
    }
}

/// Whether the one whom a token is about still stands: the agent is active, or the person is there and
/// not disabled.
pub open spec fn still_stands(state: StateV, c: ClaimsV) -> bool {
    if text::has_prefix(c.aud, "agt_"@) {
        match state.store.with_agent(c.aud) {
            Some(a) => a.status == "active"@,
            None => false,
        }
    } else {
        match state.store.with_id(c.sub) {
            Some(u) => !u.disabled,
            None => false,
        }
    }
}

fn check_standing(state: &AppState, c: &Claims) -> (r: bool)
    ensures
        r == still_stands(state@, c@),
{
    if text::starts_with(c.aud.as_str(), "agt_") {
        match state.store.agent_by_id(c.aud.as_str()) {
            Ok(Some(a)) => text::same(a.status.as_str(), "active"),
            _ => false,
        }
    } else {
        match state.store.user_by_id(c.sub.as_str()) {
            Ok(Some(u)) => !u.disabled,
            _ => false,
        }
    }
}

/// The answer that a token is not active.
pub open spec fn inactive() -> ReplyV {
    http::plain(200, BodyV::Json(json::object(seq![("active"@, JsonV::Bool(false))])))
}

fn make_inactive() -> (r: Reply)
    ensures
        r@ == inactive(),
{
    let mut p: Vec<(String, Value)> = Vec::new();
    p.push(("active".to_owned(), json::json_bool(false)));
    assert(json::pair_views(p@) =~= seq![("active"@, JsonV::Bool(false))]);
    Reply::json(200, json::json_object(p))
}

/// What is said of an active token.
pub open spec fn active_members(c: ClaimsV) -> Seq<(Seq<char>, JsonV)> {
    seq![
        ("active"@, JsonV::Bool(true)),
        ("sub"@, JsonV::Str(c.sub)),
        ("aud"@, JsonV::Str(c.aud)),
        ("iss"@, JsonV::Str(c.iss)),
        ("exp"@, JsonV::Num(c.exp)),
        ("scope"@, JsonV::Str(""@)),
    ]
}

/// What is said of a token.
pub open spec fn introspect_reply(state: StateV, headers: HeadersV, token: Seq<char>, now: u64) -> ReplyV {
    if !may_introspect(state, headers) {
        http::plain(401, BodyV::Json(agents::error_json("invalid_client"@)))
    } else {
        match tokens::verified(state.key, state.config.issuer(), token, now) {
            Err(_) => inactive(),
            Ok(c) => if still_stands(state, c) {
                http::plain(200, BodyV::Json(json::object(active_members(c))))
            } else {
                inactive()
            },
        }
    }
}

/// Looks into a token at a point in time.
pub fn introspect_at(state: &AppState, headers: &RequestHeaders, f: IntrospectRequest, now: u64) -> (r: Reply)
    ensures
        r@ == introspect_reply(state@, headers@, f.token@, now),
{
    if !check_caller(state, headers) {
        return Reply::json(401, agents::make_error_json("invalid_client"));
    }
    let issuer: String = state.config.issuer();
    let claims: Claims = match tokens::verify_at(&state.key, issuer.as_str(), f.token.as_str(), now) {
        Ok(c) => c,
        Err(_) => {
            return make_inactive();
        },
    };
    if !check_standing(state, &claims) {
        return make_inactive();
    }
    let mut p: Vec<(String, Value)> = Vec::new();
    let ghost c = claims@;
    p.push(("active".to_owned(), json::json_bool(true)));
    p.push(("sub".to_owned(), json::json_str(claims.sub)));
    p.push(("aud".to_owned(), json::json_str(claims.aud)));
    p.push(("iss".to_owned(), json::json_str(claims.iss)));
    p.push(("exp".to_owned(), json::json_num(claims.exp)));
    p.push(("scope".to_owned(), json::json_str("".to_owned())));
    assert(json::pair_views(p@) =~= active_members(c));
    Reply::json(200, json::json_object(p))
}

/// RFC 7662. Resource servers (hub, products) call this to honor the agent kill switch instantly:
/// revoked agents fail here even with unexpired JWTs.
pub fn introspect(state: &AppState, headers: &RequestHeaders, f: IntrospectRequest) -> (r: Reply)
    ensures
        exists|now: u64| r@ == #[trigger] introspect_reply(state@, headers@, f.token@, now),
{
    let now: u64 = tokens::now_epoch();
    introspect_at(state, headers, f, now)
}

// ---------------------------------------------------------------------------------------------
// Client registration
// ---------------------------------------------------------------------------------------------

/// A request to register a client.
#[derive(Debug)]
pub struct ClientRegistration {
    pub client_name: String,
    pub redirect_uris: Vec<String>,
    pub scope: String,
}

/// Whether a text can be stored as a redirect URI: it is not empty, has no white space around it and
/// stands on one line.
pub open spec fn storable_uri(u: Seq<char>) -> bool {
    u.len() > 0 && text::trimmed(u) == u && !u.contains('\n')
}

/// Whether these can be the redirect URIs of a client.
pub open spec fn storable_uris(v: Seq<Seq<char>>) -> bool {
    v.len() > 0 && forall|i: int| 0 <= i < v.len() ==> storable_uri(#[trigger] v[i])
}

fn check_uris(v: &Vec<String>) -> (r: bool)
    ensures
        r == storable_uris(text::list_view(v@)),
{
    let test = |u: &String| -> (b: bool)
        ensures
            b == storable_uri(u@),
    {
        let trimmed: String = text::trim(u.as_str());
        u.as_str().unicode_len() > 0 && text::same(trimmed.as_str(), u.as_str()) && !text::contains_char(
            u.as_str(),
            '\n',
        )
    };
    v.len() > 0 && text::all_pass(v, Ghost(|u: Seq<char>| storable_uri(u)), test)
}

/// Whether a text can be the name of a client that registers itself: it holds none of the characters
/// that mean something in a page.
pub open spec fn plain_name(n: Seq<char>) -> bool {
    !n.contains('<') && !n.contains('>') && !n.contains('&') && !n.contains('"')
}

fn check_name(n: &str) -> (r: bool)
    ensures
        r == plain_name(n@),
{
    !text::contains_char(n, '<') && !text::contains_char(n, '>') && !text::contains_char(n, '&')
        && !text::contains_char(n, '"')
}

/// The scopes that a client gets of those that were asked for: the standard ones.
pub open spec fn registered_scopes(asked: Seq<char>) -> Seq<Seq<char>> {
    text::split(asked, ' ').filter(|s: Seq<char>| authorize::standard_scope(s))
}

fn register_scopes(asked: &str) -> (r: Vec<String>)
    ensures
        text::list_view(r@) == registered_scopes(asked@),
{
    let test = |s: &String| -> (b: bool)
        ensures
            b == authorize::standard_scope(s@),
    {
        authorize::is_standard_scope(s.as_str())
    };
    text::keep(&text::split_on(asked, ' '), Ghost(|s: Seq<char>| authorize::standard_scope(s)), test)
}

/// What a registered client is told.
pub open spec fn registered_members(
    id: Seq<char>,
    name: Seq<char>,
    uris: Seq<Seq<char>>,
    scope: Seq<char>,
) -> Seq<(Seq<char>, JsonV)> {
    seq![
        ("client_id"@, JsonV::Str(id)),
        ("client_name"@, JsonV::Str(name)),
        ("redirect_uris"@, agents::texts_json(uris)),
        ("scope"@, JsonV::Str(scope)),
        ("token_endpoint_auth_method"@, JsonV::Str("none"@)),
    ]
}

/// The change that stores a client that registers itself: it has no secret.
pub open spec fn registration(body: ClientRegistration, token: Seq<char>, now: u64) -> crate::tables::ChangeV {
    store::new_client(
        "dcr_"@ + token,
        None,
        body.client_name@,
        text::join(text::list_view(body.redirect_uris@), "\n"@),
        text::join(registered_scopes(body.scope@), " "@),
        "dynamic"@,
        now,
    )
}

/// What comes of a request to register a client.
pub open spec fn register_client_outcome(
    state: StateV,
    body: ClientRegistration,
    token: Seq<char>,
    now: u64,
) -> (StateV, ReplyV) {
    let c = registration(body, token, now);
    if !storable_uris(text::list_view(body.redirect_uris@)) {
        (state, http::plain(400, BodyV::Json(agents::error_json("invalid_redirect_uri"@))))
    } else if !plain_name(body.client_name@) {
        (state, http::plain(400, BodyV::Json(agents::error_json("invalid_client_metadata"@))))
    } else if !state.store.accepts(c) {
        (state, http::plain(400, BodyV::Json(agents::error_json("server_error"@))))
    } else {
        (
            state.step(c),
            http::plain(
                201,
                BodyV::Json(
                    json::object(
                        registered_members(
                            "dcr_"@ + token,
                            body.client_name@,
                            text::list_view(body.redirect_uris@),
                            text::join(registered_scopes(body.scope@), " "@),
                        ),
                    ),
                ),
            ),
        )
    }
}

/// Registers a client that has no secret, under the name `dcr_` and `token`.
pub fn register_client_at(state: &mut AppState, body: ClientRegistration, token: String, now: u64) -> (r: Reply)
    ensures
        (final(state)@, r@) == register_client_outcome(old(state)@, body, token@, now),
{
    if !check_uris(&body.redirect_uris) {
        return Reply::json(400, agents::make_error_json("invalid_redirect_uri"));
    }
    if !check_name(body.client_name.as_str()) {
        return Reply::json(400, agents::make_error_json("invalid_client_metadata"));
    }
    let mut id: String = "dcr_".to_owned();
    id.append(token.as_str());
    let uris: String = text::join_list(&body.redirect_uris, "\n");
    let scope: String = text::join_list(&register_scopes(body.scope.as_str()), " ");
    match state.store.create_client(
        id.as_str(),
        None,
        body.client_name.as_str(),
        uris.as_str(),
        scope.as_str(),
        "dynamic",
        now,
    ) {
        Err(_) => Reply::json(400, agents::make_error_json("server_error")),
        Ok(()) => {
            let ghost members = registered_members(
                id@,
                body.client_name@,
                text::list_view(body.redirect_uris@),
                scope@,
            );
            let mut p: Vec<(String, Value)> = Vec::new();
            p.push(("client_id".to_owned(), json::json_str(id)));
            p.push(("client_name".to_owned(), json::json_str(body.client_name.clone())));
            p.push(("redirect_uris".to_owned(), agents::make_texts_json(&body.redirect_uris)));
            p.push(("scope".to_owned(), json::json_str(scope)));
            p.push(("token_endpoint_auth_method".to_owned(), json::json_str("none".to_owned())));
            assert(json::pair_views(p@) =~= members);
            Reply::json(201, json::json_object(p))
        },
    }
}

/// Registers a client that has no secret.
pub fn register_client(state: &mut AppState, body: ClientRegistration) -> (r: Reply)
    ensures
        exists|token: Seq<char>, now: u64|
            crypto::token_text(token, 16) && (final(state)@, r@) == #[trigger] register_client_outcome(
                old(state)@,
                body,
                token,
                now,
            ),
{
    let token: String = crypto::rand_token(16);
    let now: u64 = tokens::now_epoch();
    register_client_at(state, body, token, now)
}

} // verus!
