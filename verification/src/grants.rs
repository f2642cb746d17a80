//! The token endpoint: authorization codes, refresh tokens and agent credentials become tokens.

use crate::agents;
use crate::cookies;
use crate::crypto;
use crate::crypto::KeyV;
use crate::http;
use crate::http::{AppState, BodyV, HeadersV, Reply, ReplyV, RequestHeaders, StateV};
use crate::json;
use crate::json::JsonV;
use crate::login;
use crate::rows::{Agent, AgentV, AuthCode, AuthCodeV, User, UserV};
use crate::store;
use crate::tables::ChangeV;
use crate::text;
use crate::tokens;
use serde_json::Value;
use vstd::prelude::*;
use vstd::string::*;

verus! {

/// A request for tokens.
#[derive(Debug)]
pub struct TokenRequest {
    pub grant_type: String,
    pub code: String,
    pub redirect_uri: String,
    pub client_id: String,
    pub client_secret: String,
    pub code_verifier: String,
    pub refresh_token: String,
    pub scope: String,
}

/// The longest lifetime of the token of an agent, in seconds.
pub const AGENT_TTL: u64 = 900;

/// The lifetime of a refresh token, in seconds.
pub const REFRESH_TTL: u64 = 2592000;

/// The reply that refuses a request for tokens.
pub open spec fn refused(code: Seq<char>, desc: Seq<char>) -> ReplyV {
    http::plain(
        400,
        BodyV::Json(json::object(seq![("error"@, JsonV::Str(code)), ("error_description"@, JsonV::Str(desc))])),
    ).cached("no-store"@)
}

/// The reply that refuses a request for tokens.
pub fn token_error(code: &str, desc: &str) -> (r: Reply)
    ensures
        r@ == refused(code@, desc@),
{
    let mut p: Vec<(String, Value)> = Vec::new();
    p.push(("error".to_owned(), json::json_str(code.to_owned())));
    p.push(("error_description".to_owned(), json::json_str(desc.to_owned())));
    assert(json::pair_views(p@) =~= seq![("error"@, JsonV::Str(code@)), ("error_description"@, JsonV::Str(desc@))]);
    Reply::json(400, json::json_object(p)).cached("no-store")
}

/// The reply that grants tokens.
pub open spec fn granted(members: Seq<(Seq<char>, JsonV)>) -> ReplyV {
    http::plain(200, BodyV::Json(json::object(members))).cached("no-store"@)
}

fn grant(p: Vec<(String, Value)>) -> (r: Reply)
    ensures
        r@ == granted(json::pair_views(p@)),
{
    Reply::json(200, json::json_object(p)).cached("no-store")
}

/// Whether a token is good: `verify` accepts it up to its last second and then no more, and reads from it
/// what it was minted for; its payload holds the scope.
pub open spec fn good_token(
    key: KeyV,
    issuer: Seq<char>,
    user: UserV,
    aud: Seq<char>,
    scope: Seq<char>,
    token: Seq<char>,
    exp: u64,
    now: u64,
) -> bool {
    tokens::part_says(token, 1, "scope"@, scope) && forall|at: u64|
        #[trigger] tokens::verified(key, issuer, token, at) == if at <= exp {
            Ok(tokens::claims_about(issuer, user, aud, None, exp, now))
        } else {
            Err::<tokens::ClaimsV, tokens::TokenError>(tokens::TokenError::Expired)
        }
}

/// Whom an access token is about, whom it is for, what it allows, and how many seconds it lasts.
pub struct HolderV {
    pub user: UserV,
    pub aud: Seq<char>,
    pub scope: Seq<char>,
    pub ttl: u64,
}

/// Whether a reply gives a good access token for this holder.
pub open spec fn gives_good_token(state: StateV, r: ReplyV, h: HolderV, now: u64) -> bool {
    now + h.ttl <= u64::MAX && (access_token_in(r) matches Some(token) && good_token(
        state.key,
        state.config.issuer(),
        h.user,
        h.aud,
        h.scope,
        token,
        (now + h.ttl) as u64,
        now,
    ))
}

/// The access token in a reply.
pub open spec fn access_token_in(r: ReplyV) -> Option<Seq<char>> {
    match r.body {
        BodyV::Json(v) => json::member_str(v, "access_token"@),
        _ => None,
    }
}

/// An access token that comes first is found, where no other member has its name.
proof fn first_member_is_access_token(members: Seq<(Seq<char>, JsonV)>, access: Seq<char>)
    requires
        members.len() > 0,
        members[0] == ("access_token"@, JsonV::Str(access)),
        forall|i: int| 0 < i < members.len() ==> other_name((#[trigger] members[i]).0),
    ensures
        access_token_in(granted(members)) == Some(access),
{
    reveal_strlit("access_token");
    reveal_strlit("token_type");
    reveal_strlit("expires_in");
    reveal_strlit("exp");
    reveal_strlit("scope");
    reveal_strlit("id_token");
    reveal_strlit("refresh_token");
    reveal_strlit("agent_id");
    assert("access_token"@.len() == 12);
    assert forall|i: int| 0 < i < members.len() implies (#[trigger] members[i]).0 != "access_token"@ by {
        assert(other_name(members[i].0));
    }
    json::member_of_pair(members, 0);
}

/// Whether a name is that of a member of a grant other than the access token.
spec fn other_name(n: Seq<char>) -> bool {
    n == "token_type"@ || n == "expires_in"@ || n == "exp"@ || n == "scope"@ || n == "id_token"@ || n
        == "refresh_token"@ || n == "agent_id"@
}

// ---------------------------------------------------------------------------------------------
// Agents
// ---------------------------------------------------------------------------------------------

/// The scope of an agent's token: what was asked for, or all that the agent has.
pub open spec fn agent_token_scope(agent: AgentV, asked: Seq<char>) -> Seq<char> {
    if asked.len() == 0 {
        text::join(agent.scopes, " "@)
    } else {
        asked
    }
}

/// Whether every part of a scope is one of the agent's.
pub open spec fn within(scope: Seq<char>, own: Seq<Seq<char>>) -> bool {
    forall|i: int| 0 <= i < text::split(scope, ' ').len() ==> own.contains(#[trigger] text::split(scope, ' ')[i])
}

fn is_within(scope: &str, own: &Vec<String>) -> (r: bool)
    ensures
        r == within(scope@, text::list_view(own@)),
{
    let test = |s: &String| -> (b: bool)
        ensures
            b == text::list_view(own@).contains(s@),
    {
        text::list_contains(own, s.as_str())
    };
    let ghost p = |s: Seq<char>| text::list_view(own@).contains(s);
    text::all_pass(&text::split_on(scope, ' '), Ghost(p), test)
}

/// Whom an agent acts for: its owner, or a stand-in where the owner is gone.
pub open spec fn acting_for(state: StateV, agent: AgentV) -> UserV {
    match state.store.with_id(agent.owner_user_id) {
        Some(u) => u,
        None => UserV {
            id: "owner-of-"@ + agent.id,
            email: ""@,
            name: ""@,
            password_hash: None,
            github_id: None,
            is_admin: false,
            disabled: false,
        },
    }
}

fn find_acting_for(state: &AppState, agent: &Agent) -> (r: User)
    ensures
        r@ == acting_for(state@, agent@),
{
    match state.store.user_by_id(agent.owner_user_id.as_str()) {
        Ok(Some(u)) => u,
        _ => {
            let mut id: String = "owner-of-".to_owned();
            id.append(agent.id.as_str());
            User {
                id,
                email: "".to_owned(),
                name: "".to_owned(),
                password_hash: None,
                github_id: None,
                is_admin: false,
                disabled: false,
            }
        },
    }
}

/// The lifetime of an agent's token: that of access tokens, but at most fifteen minutes.
pub open spec fn agent_ttl(ttl: u64) -> u64 {
    if ttl < AGENT_TTL {
        ttl
    } else {
        AGENT_TTL
    }
}

/// What an agent is given.
pub open spec fn agent_grant(access: Seq<char>, scope: Seq<char>, id: Seq<char>) -> Seq<(Seq<char>, JsonV)> {
    seq![
        ("access_token"@, JsonV::Str(access)),
        ("token_type"@, JsonV::Str("Bearer"@)),
        ("expires_in"@, JsonV::Num(AGENT_TTL)),
        ("scope"@, JsonV::Str(scope)),
        ("agent_id"@, JsonV::Str(id)),
    ]
}

/// What comes of a request with an agent's credentials.
pub open spec fn client_credentials_outcome(
    state: StateV,
    headers: HeadersV,
    f: TokenRequest,
    now: u64,
) -> (StateV, ReplyV) {
    let named = match cookies::basic(headers) {
        Some(c) => c.0,
        None => f.client_id@,
    };
    if !text::has_prefix(named, "agt_"@) {
        (state, refused("invalid_client"@, "agent credentials required"@))
    } else {
        match agents::authenticated(state, headers) {
            None => (state, refused("invalid_client"@, "invalid agent credentials"@)),
            Some(agent) => {
                let scope = agent_token_scope(agent, f.scope@);
                let subject = acting_for(state, agent);
                if !within(scope, agent.scopes) {
                    (state, refused("invalid_scope"@, "scope exceeds agent grant"@))
                } else {
                    match tokens::access_token(
                        state.key,
                        state.config.issuer(),
                        subject,
                        agent.id,
                        scope,
                        agent_ttl(state.config.access_token_ttl),
                        now,
                    ) {
                        Err(_) => (state, refused("server_error"@, "signing failed"@)),
                        Ok(t) => (
                            state.step(ChangeV::TouchAgent { id: agent.id, at: now }).note(
                                "agent_token"@,
                                Some(subject.id),
                                login::detail1("agent"@, agent.id),
                                now,
                            ),
                            granted(agent_grant(t.0, scope, agent.id)),
                        ),
                    }
                }
            },
        }
    }
}

/// Whom the access token of the agent whose credentials a request carries is about and for.
pub open spec fn agent_holder(state: StateV, headers: HeadersV, asked: Seq<char>) -> Option<HolderV> {
    match agents::authenticated(state, headers) {
        Some(agent) => Some(
            HolderV {
                user: acting_for(state, agent),
                aud: agent.id,
                scope: agent_token_scope(agent, asked),
                ttl: agent_ttl(state.config.access_token_ttl),
            },
        ),
        None => None,
    }
}

/// Gives an agent a token.
fn client_credentials(state: &mut AppState, headers: &RequestHeaders, f: &TokenRequest, now: u64) -> (r: Reply)
    ensures
        (final(state)@, r@) == client_credentials_outcome(old(state)@, headers@, *f, now),
        r@.status == 200 ==> (agent_holder(old(state)@, headers@, f.scope@) matches Some(h) && gives_good_token(
            old(state)@,
            r@,
            h,
            now,
        )),
{
    let named: String = match cookies::basic_credentials(headers) {
        Some(c) => c.0,
        None => f.client_id.clone(),
    };
    if !text::starts_with(named.as_str(), "agt_") {
        return token_error("invalid_client", "agent credentials required");
    }
    let agent: Agent = match agents::authenticate_agent(state, headers) {
        Some(a) => a,
        None => {
            return token_error("invalid_client", "invalid agent credentials");
        },
    };
    let scope: String = if f.scope.as_str().unicode_len() == 0 {
        text::join_list(&agent.scopes, " ")
    } else {
        f.scope.clone()
    };
    if !is_within(scope.as_str(), &agent.scopes) {
        return token_error("invalid_scope", "scope exceeds agent grant");
    }
    let subject: User = find_acting_for(state, &agent);
    let issuer: String = state.config.issuer();
    let ttl: u64 = if state.config.access_token_ttl < AGENT_TTL {
        state.config.access_token_ttl
    } else {
        AGENT_TTL
    };
    match tokens::mint_access_token_at(
        &state.key,
        issuer.as_str(),
        &subject,
        agent.id.as_str(),
        scope.as_str(),
        ttl,
        now,
    ) {
        Err(_) => token_error("server_error", "signing failed"),
        Ok((access, exp)) => {
            let ghost token = access@;
            proof {
                assert(good_token(old(state)@.key, issuer@, subject@, agent@.id, scope@, token, exp, now));
            }
            let _ = state.store.touch_agent(agent.id.as_str(), now);
            let detail: Value = login::make_detail1("agent", agent.id.as_str());
            state.note("agent_token", Some(subject.id.clone()), detail, now);
            let ghost members = agent_grant(access@, scope@, agent@.id);
            let mut p: Vec<(String, Value)> = Vec::new();
            p.push(("access_token".to_owned(), json::json_str(access)));
            p.push(("token_type".to_owned(), json::json_str("Bearer".to_owned())));
            p.push(("expires_in".to_owned(), json::json_num(AGENT_TTL)));
            p.push(("scope".to_owned(), json::json_str(scope)));
            p.push(("agent_id".to_owned(), json::json_str(agent.id)));
            proof {
                assert(json::pair_views(p@) =~= members);
                first_member_is_access_token(members, token);
            }
            grant(p)
        },
    }
}

// ---------------------------------------------------------------------------------------------
// Authorization codes
// ---------------------------------------------------------------------------------------------

/// Whether a scope holds a part.
pub open spec fn has_scope(scope: Seq<char>, part: Seq<char>) -> bool {
    text::split(scope, ' ').contains(part)
}

/// A member that may be missing.
pub open spec fn optional_member(key: Seq<char>, value: Option<Seq<char>>) -> Seq<(Seq<char>, JsonV)> {
    match value {
        Some(v) => seq![(key, JsonV::Str(v))],
        None => Seq::empty(),
    }
}

/// What a client is given for a person.
pub open spec fn person_grant(
    access: Seq<char>,
    ttl: u64,
    exp: u64,
    scope: Seq<char>,
    id_token: Option<Seq<char>>,
    refresh: Option<Seq<char>>,
) -> Seq<(Seq<char>, JsonV)> {
    seq![
        ("access_token"@, JsonV::Str(access)),
        ("token_type"@, JsonV::Str("Bearer"@)),
        ("expires_in"@, JsonV::Num(ttl)),
        ("exp"@, JsonV::Num(exp)),
        ("scope"@, JsonV::Str(scope)),
    ] + optional_member("id_token"@, id_token) + optional_member("refresh_token"@, refresh)
}

/// The identity token that a client is given: one where `openid` is in the scope.
pub open spec fn id_token_for(
    state: StateV,
    user: UserV,
    client_id: Seq<char>,
    scope: Seq<char>,
    nonce: Option<Seq<char>>,
    now: u64,
) -> Option<Seq<char>> {
    if has_scope(scope, "openid"@) {
        match tokens::id_token(
            state.key,
            state.config.issuer(),
            user,
            client_id,
            nonce,
            state.config.access_token_ttl,
            now,
        ) {
            Ok(t) => Some(t),
            Err(_) => None,
        }
    } else {
        None
    }
}

/// What comes of a grant for a person. A refresh token is given where it is wanted and
/// `offline_access` is in the scope.
pub open spec fn finish_outcome(
    state: StateV,
    user: UserV,
    client_id: Seq<char>,
    scope: Seq<char>,
    nonce: Option<Seq<char>>,
    want_refresh: bool,
    fresh: Seq<char>,
    now: u64,
) -> (StateV, ReplyV) {
    match tokens::access_token(
        state.key,
        state.config.issuer(),
        user,
        client_id,
        scope,
        state.config.access_token_ttl,
        now,
    ) {
        Err(_) => (state, refused("server_error"@, "signing failed"@)),
        Ok(t) => {
            let refreshes = want_refresh && has_scope(scope, "offline_access"@);
            (
                if refreshes {
                    state.step(store::new_refresh(fresh, user.id, client_id, scope, REFRESH_TTL, now))
                } else {
                    state
                },
                granted(
                    person_grant(
                        t.0,
                        state.config.access_token_ttl,
                        t.1,
                        scope,
                        id_token_for(state, user, client_id, scope, nonce, now),
                        if refreshes {
                            Some(fresh)
                        } else {
                            None
                        },
                    ),
                ),
            )
        },
    }
}

/// Adds a member that may be missing.
fn add_optional_member(p: &mut Vec<(String, Value)>, key: &str, value: Option<String>)
    ensures
        json::pair_views(final(p)@) == json::pair_views(old(p)@) + optional_member(key@, text::opt_view(value)),
{
    match value {
        Some(v) => {
            let ghost t = v@;
            p.push((key.to_owned(), json::json_str(v)));
            assert(json::pair_views(p@) =~= json::pair_views(old(p)@) + seq![(key@, JsonV::Str(t))]);
        },
        None => {
            assert(json::pair_views(p@) =~= json::pair_views(old(p)@) + Seq::empty());
        },
    }
}

/// Gives a client its tokens for a person; `fresh` is the refresh token that may be given.
pub fn finish_interactive_token(
    state: &mut AppState,
    user: &User,
    client_id: &str,
    scope: &str,
    nonce: &Option<String>,
    want_refresh: bool,
    fresh: String,
    now: u64,
) -> (r: Reply)
    ensures
        (final(state)@, r@) == finish_outcome(
            old(state)@,
            user@,
            client_id@,
            scope@,
            text::opt_view(*nonce),
            want_refresh,
            fresh@,
            now,
        ),
        r@.status == 200 ==> gives_good_token(
            old(state)@,
            r@,
            (HolderV {
                user: user@,
                aud: client_id@,
                scope: scope@,
                ttl: old(state)@.config.access_token_ttl,
            }),
            now,
        ),
{
    let issuer: String = state.config.issuer();
    let ttl: u64 = state.config.access_token_ttl;
    let (access, exp) = match tokens::mint_access_token_at(
        &state.key,
        issuer.as_str(),
        user,
        client_id,
        scope,
        ttl,
        now,
    ) {
        Ok(t) => t,
        Err(_) => {
            return token_error("server_error", "signing failed");
        },
    };
    let ghost token = access@;
    proof {
        assert(good_token(old(state)@.key, issuer@, user@, client_id@, scope@, token, exp, now));
    }
    let id_token: Option<String> = if text::has_piece(scope, ' ', "openid") {
        match tokens::mint_id_token_at(&state.key, issuer.as_str(), user, client_id, nonce, ttl, now) {
            Ok(t) => Some(t),
            Err(_) => None,
        }
    } else {
        None
    };
    let ghost identity = text::opt_view(id_token);
    let refresh: Option<String> = if want_refresh && text::has_piece(scope, ' ', "offline_access") {
        let _ = state.store.put_refresh(fresh.as_str(), user.id.as_str(), client_id, scope, REFRESH_TTL, now);
        Some(fresh)
    } else {
        None
    };
    let ghost kept = text::opt_view(refresh);
    let ghost members = person_grant(access@, ttl, exp, scope@, identity, kept);
    let mut p: Vec<(String, Value)> = Vec::new();
    p.push(("access_token".to_owned(), json::json_str(access)));
    p.push(("token_type".to_owned(), json::json_str("Bearer".to_owned())));
    p.push(("expires_in".to_owned(), json::json_num(ttl)));
    p.push(("exp".to_owned(), json::json_num(exp)));
    p.push(("scope".to_owned(), json::json_str(scope.to_owned())));
    add_optional_member(&mut p, "id_token", id_token);
    add_optional_member(&mut p, "refresh_token", refresh);
    proof {
        assert(json::pair_views(p@) =~= members);
        first_member_is_access_token(members, token);
    }
    grant(p)
}

/// Whether the client that redeems a code proves who it is: a client without a secret need not.
pub open spec fn client_proves(state: StateV, client_id: Seq<char>, secret: Seq<char>) -> bool {
    match state.store.with_client(client_id) {
        Some(c) => match c.secret_hash {
            Some(h) => crypto::password_matches(secret, h),
            None => true,
        },
        None => true,
    }
}

fn check_client(state: &AppState, client_id: &str, secret: &str) -> (r: bool)
    ensures
        r == client_proves(state@, client_id@, secret@),
{
    match state.store.client(client_id) {
        Ok(Some(c)) => match &c.secret_hash {
            Some(h) => crypto::verify_password(secret, h.as_str()),
            None => true,
        },
        _ => true,
    }
}

/// Why a redeemed code gives no tokens; where nothing stands against it, for whom it does.
pub open spec fn code_refusal(
    state: StateV,
    ac: AuthCodeV,
    client_id: Seq<char>,
    secret: Seq<char>,
    redirect_uri: Seq<char>,
    verifier: Seq<char>,
) -> Result<UserV, ReplyV> {
    if ac.client_id != client_id || ac.redirect_uri != redirect_uri {
        Err(refused("invalid_grant"@, "code was issued to a different client/redirect"@))
    } else if !client_proves(state, client_id, secret) {
        Err(refused("invalid_client"@, "bad client secret"@))
    } else if ac.code_challenge is Some && crypto::challenge_of(verifier) != ac.code_challenge->0 {
        Err(refused("invalid_grant"@, "PKCE verification failed"@))
    } else {
        match state.store.with_id(ac.user_id) {
            None => Err(refused("invalid_grant"@, "user gone"@)),
            Some(u) => if u.disabled {
                Err(refused("invalid_grant"@, "user disabled"@))
            } else {
                Ok(u)
            },
        }
    }
}

fn check_code(
    state: &AppState,
    ac: &AuthCode,
    client_id: &str,
    secret: &str,
    redirect_uri: &str,
    verifier: &str,
) -> (r: Result<User, Reply>)
    ensures
        match r {
            Ok(u) => code_refusal(state@, ac@, client_id@, secret@, redirect_uri@, verifier@) == Ok::<
                UserV,
                ReplyV,
            >(u@),
            Err(e) => code_refusal(state@, ac@, client_id@, secret@, redirect_uri@, verifier@) == Err::<
                UserV,
                ReplyV,
            >(e@),
        },
{
    if !text::same(ac.client_id.as_str(), client_id) || !text::same(ac.redirect_uri.as_str(), redirect_uri) {
        return Err(token_error("invalid_grant", "code was issued to a different client/redirect"));
    }
    if !check_client(state, client_id, secret) {
        return Err(token_error("invalid_client", "bad client secret"));
    }
    match &ac.code_challenge {
        Some(challenge) => {
            let proof_key: String = crypto::s256_challenge(verifier);
            if !text::same(proof_key.as_str(), challenge.as_str()) {
                return Err(token_error("invalid_grant", "PKCE verification failed"));
            }
        },
        None => {},
    }
    match state.store.user_by_id(ac.user_id.as_str()) {
        Ok(Some(u)) => if u.disabled {
            Err(token_error("invalid_grant", "user disabled"))
        } else {
            Ok(u)
        },
        _ => Err(token_error("invalid_grant", "user gone")),
    }
}

/// The name and the secret of the client that asks: those of the header, or those of the form.
pub open spec fn client_named(headers: HeadersV, f: TokenRequest) -> (Seq<char>, Seq<char>) {
    match cookies::basic(headers) {
        Some(c) => c,
        None => (f.client_id@, f.client_secret@),
    }
}

/// What comes of a request with an authorization code.
pub open spec fn code_outcome(
    state: StateV,
    headers: HeadersV,
    f: TokenRequest,
    fresh: Seq<char>,
    now: u64,
) -> (StateV, ReplyV) {
    let client = client_named(headers, f);
    let spent = StateV { store: store::after_redeeming(state.store, f.code@, now), ..state };
    match state.store.redeemable(f.code@, now) {
        None => (spent, refused("invalid_grant"@, "code invalid, expired, or replayed"@)),
        Some(ac) => match code_refusal(spent, ac, client.0, client.1, f.redirect_uri@, f.code_verifier@) {
            Err(reply) => (spent, reply),
            Ok(user) => finish_outcome(
                spent,
                user,
                ac.client_id,
                ac.scope,
                ac.nonce,
                f.refresh_token@.len() == 0,
                fresh,
                now,
            ),
        },
    }
}

/// Whom the access token of an authorization code is about and for: the person who consented, and the
/// client that the code was issued to.
pub open spec fn code_holder(state: StateV, code: Seq<char>, now: u64) -> Option<HolderV> {
    match state.store.redeemable(code, now) {
        Some(ac) => match state.store.with_id(ac.user_id) {
            Some(user) => Some(
                HolderV { user, aud: ac.client_id, scope: ac.scope, ttl: state.config.access_token_ttl },
            ),
            None => None,
        },
        None => None,
    }
}

/// Redeems an authorization code.
fn authorization_code(
    state: &mut AppState,
    headers: &RequestHeaders,
    f: &TokenRequest,
    fresh: String,
    now: u64,
) -> (r: Reply)
    ensures
        (final(state)@, r@) == code_outcome(old(state)@, headers@, *f, fresh@, now),
        r@.status == 200 ==> (code_holder(old(state)@, f.code@, now) matches Some(h) && gives_good_token(
            old(state)@,
            r@,
            h,
            now,
        )),
{
    let (client_id, secret) = match cookies::basic_credentials(headers) {
        Some(c) => c,
        None => (f.client_id.clone(), f.client_secret.clone()),
    };
    let ac: AuthCode = match state.store.take_auth_code(f.code.as_str(), now) {
        Ok(Some(c)) => c,
        _ => {
            return token_error("invalid_grant", "code invalid, expired, or replayed");
        },
    };
    match check_code(
        state,
        &ac,
        client_id.as_str(),
        secret.as_str(),
        f.redirect_uri.as_str(),
        f.code_verifier.as_str(),
    ) {
        Err(reply) => reply,
        Ok(user) => finish_interactive_token(
            state,
            &user,
            ac.client_id.as_str(),
            ac.scope.as_str(),
            &ac.nonce,
            f.refresh_token.as_str().unicode_len() == 0,
            fresh,
            now,
        ),
    }
}

// ---------------------------------------------------------------------------------------------
// Refresh tokens
// ---------------------------------------------------------------------------------------------

/// What a client is given for a refresh token.
pub open spec fn refresh_grant(access: Seq<char>, ttl: u64, replacement: Seq<char>, scope: Seq<char>) -> Seq<
    (Seq<char>, JsonV),
> {
    seq![
        ("access_token"@, JsonV::Str(access)),
        ("token_type"@, JsonV::Str("Bearer"@)),
        ("expires_in"@, JsonV::Num(ttl)),
        ("refresh_token"@, JsonV::Str(replacement)),
        ("scope"@, JsonV::Str(scope)),
    ]
}

/// What comes of a request with a refresh token.
pub open spec fn refresh_outcome(state: StateV, token: Seq<char>, replacement: Seq<char>, now: u64) -> (
    StateV,
    ReplyV,
) {
    let rotated = StateV { store: store::after_rotating(state.store, token, replacement, now), ..state };
    match state.store.refreshable(token, now) {
        None => (rotated, refused("invalid_grant"@, "refresh token invalid or reused"@)),
        Some(t) => match rotated.store.with_id(t.user_id) {
            None => (rotated, refused("invalid_grant"@, "user gone"@)),
            Some(user) => match tokens::access_token(
                state.key,
                state.config.issuer(),
                user,
                t.client_id,
                t.scope,
                state.config.access_token_ttl,
                now,
            ) {
                Err(_) => (rotated, refused("server_error"@, "signing failed"@)),
                Ok(access) => (
                    rotated,
                    granted(refresh_grant(access.0, state.config.access_token_ttl, replacement, t.scope)),
                ),
            },
        },
    }
}

/// Whom the access token for a refresh token is about and for: those that the refresh token was issued
/// for.
pub open spec fn refresh_holder(state: StateV, token: Seq<char>, now: u64) -> Option<HolderV> {
    match state.store.refreshable(token, now) {
        Some(t) => match state.store.with_id(t.user_id) {
            Some(user) => Some(
                HolderV { user, aud: t.client_id, scope: t.scope, ttl: state.config.access_token_ttl },
            ),
            None => None,
        },
        None => None,
    }
}

/// Replaces a refresh token.
fn refresh(state: &mut AppState, old_token: &str, replacement: String, now: u64) -> (r: Reply)
    ensures
        (final(state)@, r@) == refresh_outcome(old(state)@, old_token@, replacement@, now),
        r@.status == 200 ==> (refresh_holder(old(state)@, old_token@, now) matches Some(h) && gives_good_token(
            old(state)@,
            r@,
            h,
            now,
        )),
{
    let (user_id, client_id, scope) = match state.store.rotate_refresh(old_token, replacement.as_str(), now) {
        Ok(Some(d)) => d,
        _ => {
            return token_error("invalid_grant", "refresh token invalid or reused");
        },
    };
    let user: User = match state.store.user_by_id(user_id.as_str()) {
        Ok(Some(u)) => u,
        _ => {
            return token_error("invalid_grant", "user gone");
        },
    };
    let issuer: String = state.config.issuer();
    let ttl: u64 = state.config.access_token_ttl;
    match tokens::mint_access_token_at(
        &state.key,
        issuer.as_str(),
        &user,
        client_id.as_str(),
        scope.as_str(),
        ttl,
        now,
    ) {
        Err(_) => token_error("server_error", "signing failed"),
        Ok((access, exp)) => {
            let ghost token = access@;
            proof {
                assert(good_token(old(state)@.key, issuer@, user@, client_id@, scope@, token, exp, now));
            }
            let ghost members = refresh_grant(access@, ttl, replacement@, scope@);
            let mut p: Vec<(String, Value)> = Vec::new();
            p.push(("access_token".to_owned(), json::json_str(access)));
            p.push(("token_type".to_owned(), json::json_str("Bearer".to_owned())));
            p.push(("expires_in".to_owned(), json::json_num(ttl)));
            p.push(("refresh_token".to_owned(), json::json_str(replacement)));
            p.push(("scope".to_owned(), json::json_str(scope)));
            proof {
                assert(json::pair_views(p@) =~= members);
                first_member_is_access_token(members, token);
            }
            grant(p)
        },
    }
}

// ---------------------------------------------------------------------------------------------
// The endpoint
// ---------------------------------------------------------------------------------------------

/// What comes of a request for tokens: `fresh` is the refresh token that may be given.
pub open spec fn token_outcome(
    state: StateV,
    headers: HeadersV,
    f: TokenRequest,
    fresh: Seq<char>,
    now: u64,
) -> (StateV, ReplyV) {
    if f.grant_type@ == "client_credentials"@ {
        client_credentials_outcome(state, headers, f, now)
    } else if f.grant_type@ == "authorization_code"@ {
        code_outcome(state, headers, f, fresh, now)
    } else if f.grant_type@ == "refresh_token"@ {
        refresh_outcome(state, f.refresh_token@, fresh, now)
    } else {
        (
            state,
            refused(
                "unsupported_grant_type"@,
                "supported: authorization_code, refresh_token, client_credentials"@,
            ),
        )
    }
}

/// Whom the access token that a request asks for is about and for.
pub open spec fn holder(state: StateV, headers: HeadersV, f: TokenRequest, now: u64) -> Option<HolderV> {
    if f.grant_type@ == "client_credentials"@ {
        agent_holder(state, headers, f.scope@)
    } else if f.grant_type@ == "authorization_code"@ {
        code_holder(state, f.code@, now)
    } else if f.grant_type@ == "refresh_token"@ {
        refresh_holder(state, f.refresh_token@, now)
    } else {
        None
    }
}

/// Takes a request for tokens: `fresh` is the refresh token that may be given. Every access token that is
/// given is good.
pub fn token_at(
    state: &mut AppState,
    headers: &RequestHeaders,
    f: TokenRequest,
    fresh: String,
    now: u64,
) -> (r: Reply)
    ensures
        (final(state)@, r@) == token_outcome(old(state)@, headers@, f, fresh@, now),
        r@.status == 200 ==> (holder(old(state)@, headers@, f, now) matches Some(h) && gives_good_token(
            old(state)@,
            r@,
            h,
            now,
        )),
{
    if text::same(f.grant_type.as_str(), "client_credentials") {
        client_credentials(state, headers, &f, now)
    } else if text::same(f.grant_type.as_str(), "authorization_code") {
        authorization_code(state, headers, &f, fresh, now)
    } else if text::same(f.grant_type.as_str(), "refresh_token") {
        refresh(state, f.refresh_token.as_str(), fresh, now)
    } else {
        token_error(
            "unsupported_grant_type",
            "supported: authorization_code, refresh_token, client_credentials",
        )
    }
}

/// Takes a request for tokens.
pub fn token(state: &mut AppState, headers: &RequestHeaders, f: TokenRequest) -> (r: Reply)
    ensures
        exists|fresh: Seq<char>, now: u64|
            crypto::token_text(fresh, 32) && (final(state)@, r@) == #[trigger] token_outcome(
                old(state)@,
                headers@,
                f,
                fresh,
                now,
            ) && (r@.status == 200 ==> (holder(old(state)@, headers@, f, now) matches Some(h) && gives_good_token(
                old(state)@,
                r@,
                h,
                now,
            ))),
{
    let fresh: String = crypto::rand_token(32);
    let now: u64 = tokens::now_epoch();
    token_at(state, headers, f, fresh, now)
}

} // verus!
