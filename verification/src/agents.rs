//! Agents: machine identities that a person registers, lists, revokes and re-activates.

use crate::cookies;
use crate::crypto;
use crate::encoding;
use crate::http;
use crate::http::{AppState, BodyV, HeadersV, Reply, ReplyV, RequestHeaders, StateV};
use crate::json;
use crate::json::JsonV;
use crate::login;
use crate::pages;
use crate::rows;
use crate::rows::{Agent, AgentV, User, UserV};
use crate::store;
use crate::tables;
use crate::tables::ChangeV;
use crate::text;
use serde_json::Value;
use vstd::prelude::*;
use vstd::string::*;
use vstd::utf8::*;

verus! {

/// A request for a new agent.
#[derive(Debug)]
pub struct AgentCreate {
    pub name: String,
    pub scopes: Vec<String>,
    pub metadata: Value,
}

/// A request for another status of an agent.
#[derive(Debug)]
pub struct AgentStatusUpdate {
    pub status: String,
}

/// How many agents a person may have.
pub const MAX_AGENTS: usize = 100;

/// An error as JSON.
pub open spec fn error_json(error: Seq<char>) -> JsonV {
    json::object(seq![("error"@, JsonV::Str(error))])
}

/// An error as JSON.
pub fn make_error_json(error: &str) -> (r: Value)
    ensures
        json::json_view(r) == error_json(error@),
{
    let mut p: Vec<(String, Value)> = Vec::new();
    p.push(("error".to_owned(), json::json_str(error.to_owned())));
    assert(json::pair_views(p@) =~= seq![("error"@, JsonV::Str(error@))]);
    json::json_object(p)
}

/// The reply to someone who is not signed in.
pub open spec fn login_required() -> ReplyV {
    http::plain(401, BodyV::Json(error_json("login required"@)))
}

fn make_login_required() -> (r: Reply)
    ensures
        r@ == login_required(),
{
    Reply::json(401, make_error_json("login required"))
}

// ---------------------------------------------------------------------------------------------
// Registering
// ---------------------------------------------------------------------------------------------

/// Whether an agent may have a scope.
pub open spec fn agent_scope(s: Seq<char>) -> bool {
    s == "miser:route"@ || s == "hive:delegate"@ || s == "relay:call"@ || s == "sentiel:ingest"@ || s
        == "aegis:egress"@ || s == "patroclus:authz"@
}

/// The scopes that an agent gets of those that were asked for.
pub open spec fn granted_scopes(asked: Seq<Seq<char>>) -> Seq<Seq<char>> {
    asked.filter(|s: Seq<char>| agent_scope(s))
}

/// The scopes that an agent gets of those that were asked for.
fn grant_scopes(asked: &Vec<String>) -> (r: Vec<String>)
    ensures
        text::list_view(r@) == granted_scopes(text::list_view(asked@)),
{
    let test = |s: &String| -> (b: bool)
        ensures
            b == agent_scope(s@),
    {
        let s: &str = s.as_str();
        text::same(s, "miser:route") || text::same(s, "hive:delegate") || text::same(s, "relay:call")
            || text::same(s, "sentiel:ingest") || text::same(s, "aegis:egress") || text::same(
            s,
            "patroclus:authz",
        )
    };
    text::keep(asked, Ghost(|s: Seq<char>| agent_scope(s)), test)
}

/// Why no agent is registered; where nothing stands against it, who will own it.
pub open spec fn agent_refusal(state: StateV, headers: HeadersV, name: Seq<char>, now: u64) -> Result<UserV, ReplyV> {
    match cookies::signed_in(state, headers, now) {
        None => Err(login_required()),
        Some(user) => if text::trimmed(name).len() == 0 || text::byte_len(text::trimmed(name)) > 120
            || store::owned_by_age(state.store.tables.agents, user.id).len() >= MAX_AGENTS {
            Err(pages::error_reply("Invalid agent name or quota exceeded"@))
        } else {
            Ok(user)
        },
    }
}

/// Why no agent is registered; where nothing stands against it, who will own it.
fn check_agent(state: &AppState, headers: &RequestHeaders, name: &str, now: u64) -> (r: Result<User, Reply>)
    ensures
        match r {
            Ok(u) => agent_refusal(state@, headers@, name@, now) == Ok::<UserV, ReplyV>(u@),
            Err(e) => agent_refusal(state@, headers@, name@, now) == Err::<UserV, ReplyV>(e@),
        },
{
    let user: User = match cookies::current_user(state, headers, now) {
        Some(u) => u,
        None => {
            return Err(make_login_required());
        },
    };
    let name: String = text::trim(name);
    let count: usize = match state.store.agents_for_owner(user.id.as_str()) {
        Ok(v) => v.len(),
        Err(_) => 99,
    };
    if name.as_str().unicode_len() == 0 || text::len_in_bytes(name.as_str()) > 120 || count >= MAX_AGENTS {
        return Err(pages::err_page("Invalid agent name or quota exceeded"));
    }
    Ok(user)
}

/// The identifier, or the secret, of a new agent.
pub open spec fn agt(token: Seq<char>) -> Seq<char> {
    "agt_"@ + token
}

/// The length of an identifier or a secret that was made from so many random bytes, and its form:
/// letters, digits, `-` and `_`.
pub proof fn agt_len(token: Seq<char>, n: nat)
    requires
        crypto::token_text(token, n),
    ensures
        agt(token).len() == 4 + (4 * n + 2) / 3,
        text::byte_len(agt(token)) == agt(token).len(),
        forall|i: int| 0 <= i < agt(token).len() ==> encoding::url_digit(#[trigger] agt(token)[i]),
{
    let b = choose|b: Seq<u8>| b.len() == n && #[trigger] encoding::base64(b, true) == token;
    encoding::b64url_len(b);
    encoding::b64url_is_plain(b);
    reveal_strlit("agt_");
    let s = agt(token);
    assert forall|i: int| 0 <= i < s.len() implies encoding::url_digit(#[trigger] s[i]) by {
        if i >= 4 {
            assert(s[i] == token[i - 4]);
        }
    }
    assert(is_ascii_chars(s));
    is_ascii_chars_encode_utf8(s);
}

fn make_agt(token: &str) -> (r: String)
    ensures
        r@ == agt(token@),
{
    let mut s: String = "agt_".to_owned();
    s.append(token);
    s
}

/// The detail of the audit entry about a new agent.
pub open spec fn agent_detail(id: Seq<char>, name: Seq<char>) -> JsonV {
    json::object(seq![("agent"@, JsonV::Str(id)), ("name"@, JsonV::Str(name))])
}

fn make_agent_detail(id: &str, name: &str) -> (r: Value)
    ensures
        json::json_view(r) == agent_detail(id@, name@),
{
    let mut p: Vec<(String, Value)> = Vec::new();
    p.push(("agent".to_owned(), json::json_str(id.to_owned())));
    p.push(("name".to_owned(), json::json_str(name.to_owned())));
    assert(json::pair_views(p@) =~= seq![("agent"@, JsonV::Str(id@)), ("name"@, JsonV::Str(name@))]);
    json::json_object(p)
}

/// What the owner of a new agent is told.
pub open spec fn agent_created(id: Seq<char>, secret: Seq<char>) -> JsonV {
    json::object(
        seq![
            ("agent_id"@, JsonV::Str(id)),
            ("secret"@, JsonV::Str(secret)),
            ("note"@, JsonV::Str("Store this secret now — it is not retrievable later."@)),
        ],
    )
}

fn make_agent_created(id: &str, secret: &str) -> (r: Value)
    ensures
        json::json_view(r) == agent_created(id@, secret@),
{
    let mut p: Vec<(String, Value)> = Vec::new();
    p.push(("agent_id".to_owned(), json::json_str(id.to_owned())));
    p.push(("secret".to_owned(), json::json_str(secret.to_owned())));
    p.push(
        ("note".to_owned(), json::json_str("Store this secret now — it is not retrievable later.".to_owned())),
    );
    assert(json::pair_views(p@) =~= seq![
        ("agent_id"@, JsonV::Str(id@)),
        ("secret"@, JsonV::Str(secret@)),
        ("note"@, JsonV::Str("Store this secret now — it is not retrievable later."@)),
    ]);
    json::json_object(p)
}

/// What comes of a request for an agent against which nothing stands.
pub open spec fn agent_outcome(
    state: StateV,
    user: UserV,
    body: AgentCreate,
    secret: Seq<char>,
    hash: Option<Seq<char>>,
    id: Seq<char>,
    now: u64,
) -> (StateV, ReplyV) {
    let name = text::trimmed(body.name@);
    match hash {
        None => (state, pages::error_reply("Internal error"@)),
        Some(h) => {
            let c = store::new_agent(
                id,
                user.id,
                name,
                h,
                granted_scopes(text::list_view(body.scopes@)),
                json::json_view(body.metadata),
                now,
            );
            if !state.store.accepts(c) {
                (state, pages::error_reply("Could not create agent"@))
            } else {
                (
                    state.step(c).note("agent_created"@, Some(user.id), agent_detail(id, name), now),
                    http::plain(201, BodyV::Json(agent_created(id, secret))),
                )
            }
        },
    }
}

/// What comes of a request for an agent: its secret is `agt_` and `secret_token`, `hash` the hash of
/// that secret, and its identifier `agt_` and `id_token`. The hash is looked at only where nothing
/// stands against the request.
pub open spec fn agents_create_outcome(
    state: StateV,
    headers: HeadersV,
    body: AgentCreate,
    secret_token: Seq<char>,
    hash: Option<Seq<char>>,
    id_token: Seq<char>,
    now: u64,
) -> (StateV, ReplyV) {
    match agent_refusal(state, headers, body.name@, now) {
        Err(reply) => (state, reply),
        Ok(user) => agent_outcome(state, user, body, agt(secret_token), hash, agt(id_token), now),
    }
}

/// Registers an agent against which nothing stands.
fn create_agent(
    state: &mut AppState,
    user: &User,
    body: &AgentCreate,
    secret: &str,
    hash: Option<String>,
    id: &str,
    now: u64,
) -> (r: Reply)
    ensures
        (final(state)@, r@) == agent_outcome(
            old(state)@,
            user@,
            *body,
            secret@,
            text::opt_view(hash),
            id@,
            now,
        ),
{
    let hash: String = match hash {
        Some(h) => h,
        None => {
            return pages::err_page("Internal error");
        },
    };
    let name: String = text::trim(body.name.as_str());
    let scopes: Vec<String> = grant_scopes(&body.scopes);
    match state.store.create_agent(
        id,
        user.id.as_str(),
        name.as_str(),
        hash.as_str(),
        &scopes,
        &body.metadata,
        now,
    ) {
        Err(_) => pages::err_page("Could not create agent"),
        Ok(()) => {
            let detail: Value = make_agent_detail(id, name.as_str());
            state.note("agent_created", Some(user.id.clone()), detail, now);
            Reply::json(201, make_agent_created(id, secret))
        },
    }
}

/// Registers an agent with this secret, this hash of it and this identifier.
pub fn agents_create_at(
    state: &mut AppState,
    headers: &RequestHeaders,
    body: AgentCreate,
    secret_token: String,
    hash: Option<String>,
    id_token: String,
    now: u64,
) -> (r: Reply)
    ensures
        (final(state)@, r@) == agents_create_outcome(
            old(state)@,
            headers@,
            body,
            secret_token@,
            text::opt_view(hash),
            id_token@,
            now,
        ),
{
    match check_agent(state, headers, body.name.as_str(), now) {
        Err(reply) => reply,
        Ok(user) => {
            let secret: String = make_agt(secret_token.as_str());
            let id: String = make_agt(id_token.as_str());
            create_agent(state, &user, &body, secret.as_str(), hash, id.as_str(), now)
        },
    }
}

/// Register an agent identity. Session-authenticated; the calling human is the owner. Returns the
/// plaintext secret exactly once.
pub fn agents_create(state: &mut AppState, headers: &RequestHeaders, body: AgentCreate) -> (r: Reply)
    ensures
        exists|secret_token: Seq<char>, hash: Option<Seq<char>>, id_token: Seq<char>, now: u64|
            {
                &&& agent_refusal(old(state)@, headers@, body.name@, now) is Ok ==> hash is Some
                &&& crypto::may_hash(agt(secret_token), hash)
                &&& crypto::token_text(secret_token, 32)
                &&& crypto::token_text(id_token, 12)
                &&& (final(state)@, r@) == #[trigger] agents_create_outcome(
                    old(state)@,
                    headers@,
                    body,
                    secret_token,
                    hash,
                    id_token,
                    now,
                )
            },
{
    let secret_token: String = crypto::rand_token(32);
    let id_token: String = crypto::rand_token(12);
    let now: u64 = crate::tokens::now_epoch();
    match check_agent(state, headers, body.name.as_str(), now) {
        Err(reply) => {
            assert((state@, reply@) == agents_create_outcome(
                old(state)@,
                headers@,
                body,
                secret_token@,
                None,
                id_token@,
                now,
            ));
            reply
        },
        Ok(user) => {
            let secret: String = make_agt(secret_token.as_str());
            let id: String = make_agt(id_token.as_str());
            proof {
                agt_len(secret_token@, 32);
            }
            let hash: Option<String> = crypto::hash_password(secret.as_str());
            let ghost h = text::opt_view(hash);
            let r: Reply = create_agent(state, &user, &body, secret.as_str(), hash, id.as_str(), now);
            assert((state@, r@) == agents_create_outcome(
                old(state)@,
                headers@,
                body,
                secret_token@,
                h,
                id_token@,
                now,
            ));
            r
        },
    }
}

// ---------------------------------------------------------------------------------------------
// Listing
// ---------------------------------------------------------------------------------------------

/// A list of texts as JSON.
pub open spec fn texts_json(v: Seq<Seq<char>>) -> JsonV {
    JsonV::Arr(v.map_values(|s: Seq<char>| JsonV::Str(s)))
}

/// A list of texts as JSON.
pub fn make_texts_json(v: &Vec<String>) -> (r: Value)
    ensures
        json::json_view(r) == texts_json(text::list_view(v@)),
{
    let mut out: Vec<Value> = Vec::new();
    let mut i: usize = 0;
    while i < v.len()
        invariant
            i <= v@.len(),
            out@.len() == i,
            forall|j: int| 0 <= j < i ==> json::json_view(#[trigger] out@[j]) == JsonV::Str(v@[j]@),
        decreases v.len() - i,
    {
        out.push(json::json_str(v[i].clone()));
        i += 1;
    }
    assert(json::views(out@) =~= text::list_view(v@).map_values(|s: Seq<char>| JsonV::Str(s)));
    json::json_array(out)
}

/// An agent as its owner sees it.
pub open spec fn agent_json(a: AgentV) -> JsonV {
    json::object(
        seq![
            ("id"@, JsonV::Str(a.id)),
            ("name"@, JsonV::Str(a.name)),
            ("scopes"@, texts_json(a.scopes)),
            ("status"@, JsonV::Str(a.status)),
        ],
    )
}

fn make_agent_json(a: &Agent) -> (r: Value)
    ensures
        json::json_view(r) == agent_json(a@),
{
    let mut p: Vec<(String, Value)> = Vec::new();
    p.push(("id".to_owned(), json::json_str(a.id.clone())));
    p.push(("name".to_owned(), json::json_str(a.name.clone())));
    p.push(("scopes".to_owned(), make_texts_json(&a.scopes)));
    p.push(("status".to_owned(), json::json_str(a.status.clone())));
    assert(json::pair_views(p@) =~= seq![
        ("id"@, JsonV::Str(a@.id)),
        ("name"@, JsonV::Str(a@.name)),
        ("scopes"@, texts_json(a@.scopes)),
        ("status"@, JsonV::Str(a@.status)),
    ]);
    json::json_object(p)
}

/// The list of the agents of the person who is signed in.
pub open spec fn agents_list_reply(state: StateV, headers: HeadersV, now: u64) -> ReplyV {
    match cookies::signed_in(state, headers, now) {
        None => login_required(),
        Some(user) => http::plain(
            200,
            BodyV::Json(
                json::object(
                    seq![
                        (
                            "agents"@,
                            JsonV::Arr(
                                store::owned_by_age(state.store.tables.agents, user.id).map_values(
                                    |a: AgentV| agent_json(a),
                                ),
                            ),
                        ),
                    ],
                ),
            ),
        ),
    }
}

/// The list of the agents of the person who is signed in, at a point in time.
pub fn agents_list_at(state: &AppState, headers: &RequestHeaders, now: u64) -> (r: Reply)
    ensures
        r@ == agents_list_reply(state@, headers@, now),
{
    let user: User = match cookies::current_user(state, headers, now) {
        Some(u) => u,
        None => {
            return make_login_required();
        },
    };
    let agents: Vec<Agent> = match state.store.agents_for_owner(user.id.as_str()) {
        Ok(v) => v,
        Err(_) => Vec::new(),
    };
    let ghost all = store::owned_by_age(state@.store.tables.agents, user@.id);
    let mut out: Vec<Value> = Vec::new();
    let mut i: usize = 0;
    while i < agents.len()
        invariant
            i <= agents@.len(),
            out@.len() == i,
            forall|j: int| 0 <= j < i ==> json::json_view(#[trigger] out@[j]) == agent_json(agents@[j]@),
        decreases agents.len() - i,
    {
        out.push(make_agent_json(&agents[i]));
        i += 1;
    }
    assert(json::views(out@) =~= all.map_values(|a: AgentV| agent_json(a)));
    let list: Value = json::json_array(out);
    let ghost listed = json::json_view(list);
    let mut p: Vec<(String, Value)> = Vec::new();
    p.push(("agents".to_owned(), list));
    assert(json::pair_views(p@) =~= seq![("agents"@, listed)]);
    Reply::json(200, json::json_object(p))
}

/// The list of the agents of the person who is signed in.
pub fn agents_list(state: &AppState, headers: &RequestHeaders) -> (r: Reply)
    ensures
        exists|now: u64| r@ == #[trigger] agents_list_reply(state@, headers@, now),
{
    let now: u64 = crate::tokens::now_epoch();
    agents_list_at(state, headers, now)
}

// ---------------------------------------------------------------------------------------------
// Revoking and re-activating
// ---------------------------------------------------------------------------------------------

/// What the owner of an agent is told of its new status.
pub open spec fn status_json(id: Seq<char>, status: Seq<char>) -> JsonV {
    json::object(seq![("agent_id"@, JsonV::Str(id)), ("status"@, JsonV::Str(status))])
}

fn make_status_json(id: &str, status: &str) -> (r: Value)
    ensures
        json::json_view(r) == status_json(id@, status@),
{
    let mut p: Vec<(String, Value)> = Vec::new();
    p.push(("agent_id".to_owned(), json::json_str(id.to_owned())));
    p.push(("status".to_owned(), json::json_str(status.to_owned())));
    assert(json::pair_views(p@) =~= seq![("agent_id"@, JsonV::Str(id@)), ("status"@, JsonV::Str(status@))]);
    json::json_object(p)
}

/// What comes of a request for another status.
pub open spec fn set_status_outcome(
    state: StateV,
    headers: HeadersV,
    agent_id: Seq<char>,
    status: Seq<char>,
    now: u64,
) -> (StateV, ReplyV) {
    match cookies::signed_in(state, headers, now) {
        None => (state, login_required()),
        Some(user) => if status != "active"@ && status != "revoked"@ {
            (state, pages::error_reply("status must be active|revoked"@))
        } else {
            let changed = state.step(ChangeV::SetAgentStatus { id: agent_id, owner: user.id, status });
            if tables::first(state.store.tables.agents, store::owned_agent(agent_id, user.id)) is Some {
                (
                    changed.note(
                        if status == "revoked"@ {
                            "agent_revoked"@
                        } else {
                            "agent_reactivated"@
                        },
                        Some(user.id),
                        login::detail1("agent"@, agent_id),
                        now,
                    ),
                    http::plain(200, BodyV::Json(status_json(agent_id, status))),
                )
            } else {
                (changed, http::plain(404, BodyV::Json(error_json("not found"@))))
            }
        },
    }
}

/// Gives an agent another status at a point in time.
pub fn agents_set_status_at(
    state: &mut AppState,
    headers: &RequestHeaders,
    agent_id: String,
    body: AgentStatusUpdate,
    now: u64,
) -> (r: Reply)
    ensures
        (final(state)@, r@) == set_status_outcome(old(state)@, headers@, agent_id@, body.status@, now),
{
    let user: User = match cookies::current_user(state, headers, now) {
        Some(u) => u,
        None => {
            return make_login_required();
        },
    };
    let revoked = text::same(body.status.as_str(), "revoked");
    if !revoked && !text::same(body.status.as_str(), "active") {
        return pages::err_page("status must be active|revoked");
    }
    let known = match state.store.set_agent_status(agent_id.as_str(), user.id.as_str(), body.status.as_str()) {
        Ok(b) => b,
        Err(_) => false,
    };
    if known {
        let detail: Value = login::make_detail1("agent", agent_id.as_str());
        state.note(
            if revoked {
                "agent_revoked"
            } else {
                "agent_reactivated"
            },
            Some(user.id.clone()),
            detail,
            now,
        );
        Reply::json(200, make_status_json(agent_id.as_str(), body.status.as_str()))
    } else {
        Reply::json(404, make_error_json("not found"))
    }
}

/// Kill switch / re-activate — only the owner of an agent can change its status.
pub fn agents_set_status(
    state: &mut AppState,
    headers: &RequestHeaders,
    agent_id: String,
    body: AgentStatusUpdate,
) -> (r: Reply)
    ensures
        exists|now: u64|
            (final(state)@, r@) == #[trigger] set_status_outcome(
                old(state)@,
                headers@,
                agent_id@,
                body.status@,
                now,
            ),
{
    let now: u64 = crate::tokens::now_epoch();
    agents_set_status_at(state, headers, agent_id, body, now)
}

// ---------------------------------------------------------------------------------------------
// Credentials
// ---------------------------------------------------------------------------------------------

/// The active agent whose credentials a request carries.
pub open spec fn authenticated(state: StateV, headers: HeadersV) -> Option<AgentV> {
    match cookies::basic(headers) {
        None => None,
        Some(cred) => if !text::has_prefix(cred.0, "agt_"@) {
            None
        } else {
            match state.store.with_agent(cred.0) {
                None => None,
                Some(a) => if a.status == "active"@ && crypto::password_matches(cred.1, a.secret_hash) {
                    Some(a)
                } else {
                    None
                },
            }
        },
    }
}

/// The active agent whose credentials a request carries.
pub fn authenticate_agent(state: &AppState, headers: &RequestHeaders) -> (r: Option<Agent>)
    ensures
        rows::opt_row(r) == authenticated(state@, headers@),
{
    let (id, secret) = match cookies::basic_credentials(headers) {
        Some(c) => c,
        None => {
            return None;
        },
    };
    if !text::starts_with(id.as_str(), "agt_") {
        return None;
    }
    let agent: Agent = match state.store.agent_by_id(id.as_str()) {
        Ok(Some(a)) => a,
        _ => {
            return None;
        },
    };
    if !text::same(agent.status.as_str(), "active") {
        return None;
    }
    if !crypto::verify_password(secret.as_str(), agent.secret_hash.as_str()) {
        return None;
    }
    Some(agent)
}

} // verus!
