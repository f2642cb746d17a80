//! What agents get and lose, and what is said of tokens and of those whom they are about.

use crate::access_laws;
use crate::access_laws::said;
use crate::account_laws;
use crate::agents;
use crate::agents::AgentCreate;
use crate::cookies;
use crate::crypto;
use crate::grants;
use crate::grants::TokenRequest;
use crate::guarantees;
use crate::http::{BodyV, HeadersV, ReplyV, StateV};
use crate::json;
use crate::json::JsonV;
use crate::laws;
use crate::oidc;
use crate::rows::{AgentRowV, AgentV, UserV};
use crate::store;
use crate::store_laws;
use crate::tables;
use crate::tables::{ChangeV, Tables};
use crate::text;
use crate::tokens;
use crate::tokens::ClaimsV;
use vstd::prelude::*;
use vstd::string::*;
use vstd::utf8::*;

verus! {

// ---------------------------------------------------------------------------------------------
// Registering
// ---------------------------------------------------------------------------------------------

/// Whether a request for an agent is one that is taken: it comes from a person who is signed in, with a
/// name that is not too long, and with fewer than a hundred agents so far.
pub open spec fn agent_request_stands(state: StateV, headers: HeadersV, name: Seq<char>, now: u64, user: UserV) -> bool {
    &&& cookies::signed_in(state, headers, now) == Some(user)
    &&& text::trimmed(name).len() > 0
    &&& encode_utf8(text::trimmed(name)).len() <= 120
    &&& store::owned_by_age(state.store.tables.agents, user.id).len() < 100
}

/// Whether an agent with this identifier can be stored now.
pub open spec fn agent_fits(state: StateV, id: Seq<char>, now: u64) -> bool {
    &&& state.store.reachable
    &&& now <= store_laws::last_time()
    &&& forall|i: int|
        0 <= i < state.store.tables.agents.len() ==> (#[trigger] state.store.tables.agents[i]).id != id
}

/// Whether a scope is one that agents may have.
pub open spec fn grantable(s: Seq<char>) -> bool {
    s == "miser:route"@ || s == "hive:delegate"@ || s == "relay:call"@ || s == "sentiel:ingest"@ || s
        == "aegis:egress"@ || s == "patroclus:authz"@
}

/// An agent is registered exactly for a request that stands: it is owned by the person who is signed in,
/// active, with the trimmed name, the hash of its secret and those of the scopes asked for that agents
/// may have. The reply tells its identifier and its secret. Else nothing changes.
pub proof fn when_agents_are_registered(
    state: StateV,
    headers: HeadersV,
    body: AgentCreate,
    secret_token: Seq<char>,
    hash: Seq<char>,
    id_token: Seq<char>,
    now: u64,
    user: UserV,
)
    requires
        agent_fits(state, "agt_"@ + id_token, now),
    ensures
        ({
            let out = agents::agents_create_outcome(state, headers, body, secret_token, Some(hash), id_token, now);
            let rows = state.store.tables.agents;
            let more = out.0.store.tables.agents;
            &&& cookies::signed_in(state, headers, now) is None ==> out.1.status == 401 && out.0 == state
                && account_laws::gives_nothing(out.1)
            &&& cookies::signed_in(state, headers, now) == Some(user) && !agent_request_stands(
                state,
                headers,
                body.name@,
                now,
                user,
            ) ==> out.1.status == 400 && out.0 == state && account_laws::gives_nothing(out.1)
            &&& agent_request_stands(state, headers, body.name@, now, user) ==> {
                &&& out.1.status == 201
                &&& said(out.1, "agent_id"@) == Some(JsonV::Str("agt_"@ + id_token))
                &&& said(out.1, "secret"@) == Some(JsonV::Str("agt_"@ + secret_token))
                &&& more.len() == rows.len() + 1
                &&& more.drop_last() == rows
                &&& more.last().id == "agt_"@ + id_token
                &&& more.last().owner_user_id == user.id
                &&& more.last().name == text::trimmed(body.name@)
                &&& more.last().secret_hash == hash
                &&& more.last().status == "active"@
                &&& more.last().created_at == now
                &&& more.last().metadata == json::json_text(json::json_view(body.metadata))
                &&& account_laws::last_noted(out.0, "agent_created"@, Some(user.id), now)
                &&& out.0.store.tables == (Tables { agents: more, ..state.store.tables })
            }
        }),
{
    let id = agents::agt(id_token);
    reveal_strlit("agent_id");
    reveal_strlit("secret");
    reveal_strlit("note");
    assert("agent_id"@.len() == 8 && "secret"@.len() == 6 && "note"@.len() == 4);
    let p = seq![
        ("agent_id"@, JsonV::Str(id)),
        ("secret"@, JsonV::Str(agents::agt(secret_token))),
        ("note"@, JsonV::Str("Store this secret now — it is not retrievable later."@)),
    ];
    json::member_of_pair(p, 0);
    json::member_of_pair(p, 1);
    let c = store::new_agent(
        id,
        user.id,
        text::trimmed(body.name@),
        hash,
        agents::granted_scopes(text::list_view(body.scopes@)),
        json::json_view(body.metadata),
        now,
    );
    store_laws::when_rows_are_taken(state.store, c);
    let out = agents::agents_create_outcome(state, headers, body, secret_token, Some(hash), id_token, now);
    if agent_request_stands(state, headers, body.name@, now, user) {
        assert(out.0.store.tables.agents.drop_last() =~= state.store.tables.agents);
    }
}

/// Without a hash of its secret no agent is registered.
pub proof fn no_agent_without_a_hash(
    state: StateV,
    headers: HeadersV,
    body: AgentCreate,
    secret_token: Seq<char>,
    id_token: Seq<char>,
    now: u64,
)
    ensures
        ({
            let out = agents::agents_create_outcome(state, headers, body, secret_token, None, id_token, now);
            out.0 == state && (out.1.status == 400 || out.1.status == 401) && account_laws::gives_nothing(out.1)
        }),
{
}

/// The scopes of a new agent are those of the ones asked for that agents may have.
pub proof fn what_scopes_agents_get(
    state: StateV,
    headers: HeadersV,
    body: AgentCreate,
    secret_token: Seq<char>,
    hash: Seq<char>,
    id_token: Seq<char>,
    now: u64,
    w: Seq<char>,
)
    requires
        agents::agents_create_outcome(state, headers, body, secret_token, Some(hash), id_token, now).1.status == 201,
    ensures
        agents::agents_create_outcome(
            state,
            headers,
            body,
            secret_token,
            Some(hash),
            id_token,
            now,
        ).0.store.with_agent("agt_"@ + id_token) matches Some(a) && (a.scopes.contains(w) <==> text::list_view(
            body.scopes@,
        ).contains(w) && grantable(w)),
{
    let asked = text::list_view(body.scopes@);
    let p = |s: Seq<char>| agents::agent_scope(s);
    tables::kept(asked, p);
    let scopes = agents::granted_scopes(asked);
    let user = agents::agent_refusal(state, headers, body.name@, now)->Ok_0;
    laws::stored_agent_is_found(
        state.store,
        agents::agt(id_token),
        user.id,
        text::trimmed(body.name@),
        hash,
        scopes,
        json::json_view(body.metadata),
        now,
    );
    assert forall|i: int| 0 <= i < scopes.len() implies (#[trigger] scopes[i]).len() > 0 && !scopes[i].contains(
        ' ',
    ) by {
        assert(scopes.contains(scopes[i]));
        assert(p(scopes[i]));
        guarantees::agent_scopes_are_words(scopes[i]);
    }
    laws::stored_scopes_are_read_back(scopes);
    assert(p(w) == agents::agent_scope(w));
}

/// The list shows the agents of the person who is signed in, each with its identifier, its name and its
/// status, in the order of their age, and those of no one else.
pub proof fn what_the_list_shows(state: StateV, headers: HeadersV, now: u64)
    ensures
        ({
            let r = agents::agents_list_reply(state, headers, now);
            &&& account_laws::gives_nothing(r)
            &&& cookies::signed_in(state, headers, now) is None ==> r.status == 401 && said(r, "agents"@) is None
                && said(r, "error"@) == Some(JsonV::Str("login required"@))
            &&& cookies::signed_in(state, headers, now) matches Some(user) ==> {
                let owned = store::owned_by_age(state.store.tables.agents, user.id);
                &&& r.status == 200
                &&& said(r, "agents"@) matches Some(JsonV::Arr(shown)) && shown.len() == owned.len() && forall|i: int|
                    0 <= i < owned.len() ==> shows(#[trigger] shown[i], owned[i])
            }
        }),
{
    reveal_strlit("agents");
    reveal_strlit("error");
    assert("agents"@.len() == 6 && "error"@.len() == 5);
    let e = seq![("error"@, JsonV::Str("login required"@))];
    json::member_of_no_pair(e, "agents"@);
    json::member_of_pair(e, 0);
    match cookies::signed_in(state, headers, now) {
        Some(user) => {
            let owned = store::owned_by_age(state.store.tables.agents, user.id);
            let shown = owned.map_values(|a: AgentV| agents::agent_json(a));
            let p = seq![("agents"@, JsonV::Arr(shown))];
            json::member_of_pair(p, 0);
            assert forall|i: int| 0 <= i < owned.len() implies shows(#[trigger] shown[i], owned[i]) by {
                what_an_agent_shows(owned[i]);
            }
        },
        None => {},
    }
}

/// Whether JSON shows an agent.
pub open spec fn shows(v: JsonV, a: AgentV) -> bool {
    &&& json::member_str(v, "id"@) == Some(a.id)
    &&& json::member_str(v, "name"@) == Some(a.name)
    &&& json::member_str(v, "status"@) == Some(a.status)
    &&& json::member(v, "scopes"@) matches Some(JsonV::Arr(s)) && s.len() == a.scopes.len() && forall|i: int|
        0 <= i < s.len() ==> #[trigger] s[i] == JsonV::Str(a.scopes[i])
    &&& json::member(v, "secret_hash"@) is None
}

proof fn what_an_agent_shows(a: AgentV)
    ensures
        shows(agents::agent_json(a), a),
{
    reveal_strlit("id");
    reveal_strlit("name");
    reveal_strlit("scopes");
    reveal_strlit("status");
    reveal_strlit("secret_hash");
    assert("id"@.len() == 2 && "name"@.len() == 4 && "scopes"@.len() == 6 && "status"@.len() == 6);
    assert("secret_hash"@.len() == 11);
    assert("scopes"@[1] == 'c' && "status"@[1] == 't');
    let p = seq![
        ("id"@, JsonV::Str(a.id)),
        ("name"@, JsonV::Str(a.name)),
        ("scopes"@, agents::texts_json(a.scopes)),
        ("status"@, JsonV::Str(a.status)),
    ];
    json::member_of_pair(p, 0);
    json::member_of_pair(p, 1);
    json::member_of_pair(p, 2);
    json::member_of_pair(p, 3);
    json::member_of_no_pair(p, "secret_hash"@);
}

// ---------------------------------------------------------------------------------------------
// Revoking
// ---------------------------------------------------------------------------------------------

/// The owner of an agent sets its status to `active` or `revoked`, and is told so; that is noted. Anything
/// else is refused and changes no table.
pub proof fn what_a_status_request_does(
    state: StateV,
    headers: HeadersV,
    agent_id: Seq<char>,
    status: Seq<char>,
    now: u64,
    user: UserV,
)
    requires
        state.store.reachable,
        now <= store_laws::last_time(),
        tables::wf(state.store.tables),
    ensures
        ({
            let out = agents::set_status_outcome(state, headers, agent_id, status, now);
            let owns = state.store.with_agent(agent_id) matches Some(a) && a.owner_user_id == user.id;
            let known = status == "active"@ || status == "revoked"@;
            &&& account_laws::gives_nothing(out.1)
            &&& cookies::signed_in(state, headers, now) is None ==> out.1.status == 401 && out.0 == state
            &&& cookies::signed_in(state, headers, now) == Some(user) && !known ==> out.1.status == 400 && out.0
                == state
            &&& cookies::signed_in(state, headers, now) == Some(user) && known && !owns ==> out.1.status == 404
                && out.0.store.tables == state.store.tables && said(out.1, "error"@) == Some(JsonV::Str("not found"@))
            &&& out.0.store.tables == (Tables { agents: out.0.store.tables.agents, ..state.store.tables })
            &&& cookies::signed_in(state, headers, now) == Some(user) && known && owns ==> {
                &&& out.1.status == 200
                &&& said(out.1, "agent_id"@) == Some(JsonV::Str(agent_id))
                &&& said(out.1, "status"@) == Some(JsonV::Str(status))
                &&& out.0.store.with_agent(agent_id) == Some(AgentV { status, ..state.store.with_agent(agent_id)->0 })
                &&& status == "revoked"@ ==> account_laws::last_noted(out.0, "agent_revoked"@, Some(user.id), now)
                &&& status == "active"@ ==> account_laws::last_noted(out.0, "agent_reactivated"@, Some(user.id), now)
            }
        }),
{
    reveal_strlit("agent_id");
    reveal_strlit("status");
    reveal_strlit("active");
    reveal_strlit("revoked");
    assert("agent_id"@.len() == 8 && "status"@.len() == 6);
    assert("active"@.len() == 6 && "revoked"@.len() == 7);
    json::member_of_pair(seq![("error"@, JsonV::Str("not found"@))], 0);
    let p = seq![("agent_id"@, JsonV::Str(agent_id)), ("status"@, JsonV::Str(status))];
    json::member_of_pair(p, 0);
    json::member_of_pair(p, 1);
    let rows = state.store.tables.agents;
    let q = store::owned_agent(agent_id, user.id);
    let k = tables::agent_id(agent_id);
    tables::first_none(rows, q);
    tables::first_some(rows, q);
    tables::first_none(rows, k);
    tables::first_some(rows, k);
    if tables::first(rows, q) is Some {
        let x = tables::first(rows, q)->0;
        let i = choose|i: int| 0 <= i < rows.len() && rows[i] == x;
        assert forall|j: int| 0 <= j < i implies !k(#[trigger] rows[j]) by {
            assert(rows[j].id != rows[i].id);
        }
        tables::first_is(rows, k, i);
    } else {
        laws::only_the_owner_sets_the_status(state.store, agent_id, user.id, status);
        if tables::first(rows, k) is Some {
            let x = tables::first(rows, k)->0;
            let i = choose|i: int| 0 <= i < rows.len() && rows[i] == x;
            assert(!q(rows[i]));
        }
    }
    if cookies::signed_in(state, headers, now) == Some(user) && (status == "active"@ || status == "revoked"@)
        && tables::first(rows, q) is Some {
        guarantees::the_kill_switch_works(state, headers, agent_id, status, now);
    }
}

// ---------------------------------------------------------------------------------------------
// Credentials and tokens of agents
// ---------------------------------------------------------------------------------------------

/// Whether a request carries the identifier and the secret of an active agent.
pub open spec fn agent_proves(state: StateV, headers: HeadersV, a: AgentV) -> bool {
    cookies::basic(headers) matches Some(c) && {
        &&& text::has_prefix(c.0, "agt_"@)
        &&& state.store.with_agent(c.0) == Some(a)
        &&& a.status == "active"@
        &&& crypto::argon2_matches(c.1, a.secret_hash)
        &&& crypto::small_parallelism(a.secret_hash)
    }
}

/// An agent is known exactly by the credentials of an active one.
pub proof fn agents_prove_themselves(state: StateV, headers: HeadersV, a: AgentV)
    ensures
        agents::authenticated(state, headers) == Some(a) <==> agent_proves(state, headers, a),
{
}

/// The person whom an agent acts for: its owner, or a stand-in where the owner is gone.
pub open spec fn acts_for(state: StateV, a: AgentV, user: UserV) -> bool {
    match state.store.with_id(a.owner_user_id) {
        Some(u) => user == u,
        None => user.id == "owner-of-"@ + a.id && user.email.len() == 0 && user.name.len() == 0
            && user.password_hash is None && user.github_id is None && !user.is_admin && !user.disabled,
    }
}

/// Whether an agent may ask for a scope: each part is one of its own.
pub open spec fn may_ask(a: AgentV, scope: Seq<char>) -> bool {
    forall|i: int| 0 <= i < text::split(scope, ' ').len() ==> a.scopes.contains(#[trigger] text::split(scope, ' ')[i])
}

/// The scope that a request of an agent is for: what it asks for, or all that the agent has.
pub open spec fn agent_asks(a: AgentV, asked: Seq<char>) -> Seq<char> {
    if asked.len() == 0 {
        text::join(a.scopes, " "@)
    } else {
        asked
    }
}

/// For how long the token of an agent is good: as long as others, but at most fifteen minutes.
pub open spec fn agent_time(ttl: u64) -> u64 {
    if ttl <= 900 {
        ttl
    } else {
        900
    }
}

/// An active agent gets a token with its secret: for the person it acts for, with the whole scope that it
/// asks for, if that is within its own, and for at most fifteen minutes. That it was seen is stored, and
/// noted.
pub proof fn agents_get_their_tokens(
    state: StateV,
    headers: HeadersV,
    f: TokenRequest,
    fresh: Seq<char>,
    now: u64,
    a: AgentV,
    user: UserV,
)
    requires
        f.grant_type@ == "client_credentials"@,
        agent_proves(state, headers, a),
        acts_for(state, a, user),
        may_ask(a, agent_asks(a, f.scope@)),
        access_laws::access_for(
            state,
            user,
            a.id,
            agent_asks(a, f.scope@),
            agent_time(state.config.access_token_ttl),
            now,
        ) is Ok,
    ensures
        ({
            let out = grants::token_outcome(state, headers, f, fresh, now);
            let scope = agent_asks(a, f.scope@);
            let t = access_laws::access_for(
                state,
                user,
                a.id,
                scope,
                agent_time(state.config.access_token_ttl),
                now,
            )->Ok_0;
            &&& access_laws::gives_access(out.1, t.0, scope, 900)
            &&& t.1 <= now + 900
            &&& said(out.1, "agent_id"@) == Some(JsonV::Str(a.id))
            &&& said(out.1, "refresh_token"@) is None
            &&& said(out.1, "id_token"@) is None
            &&& now <= store_laws::last_time() ==> account_laws::last_noted(
                out.0,
                "agent_token"@,
                Some(user.id),
                now,
            )
            &&& now <= store_laws::last_time() ==> forall|i: int|
                0 <= i < state.store.tables.agents.len() && (#[trigger] state.store.tables.agents[i]).id == a.id
                    ==> out.0.store.tables.agents[i].last_seen == Some(now)
        }),
{
    let out = grants::token_outcome(state, headers, f, fresh, now);
    let scope = agent_asks(a, f.scope@);
    access_laws::grant_names_differ();
    reveal_strlit("");
    store_laws::agents_are_found_by_identifier(state.store, (cookies::basic(headers)->0).0);
    assert(""@ =~= Seq::<char>::empty());
    let acting = grants::acting_for(state, a);
    assert(acting == user) by {
        if state.store.with_id(a.owner_user_id) is None {
            assert(user.email =~= Seq::empty());
            assert(user.name =~= Seq::empty());
        }
    }
    let t = access_laws::access_for(state, user, a.id, scope, agent_time(state.config.access_token_ttl), now)->Ok_0;
    let p = grants::agent_grant(t.0, scope, a.id);
    json::member_of_pair(p, 0);
    json::member_of_pair(p, 1);
    json::member_of_pair(p, 2);
    json::member_of_pair(p, 3);
    json::member_of_pair(p, 4);
    json::member_of_no_pair(p, "refresh_token"@);
    json::member_of_no_pair(p, "id_token"@);
    assert(out.1 == grants::granted(p));
    let touched = state.step(ChangeV::TouchAgent { id: a.id, at: now });
    if now <= store_laws::last_time() {
        store_laws::when_rows_are_taken(state.store, ChangeV::TouchAgent { id: a.id, at: now });
        assert forall|i: int|
            0 <= i < state.store.tables.agents.len() && (#[trigger] state.store.tables.agents[i]).id
                == a.id implies out.0.store.tables.agents[i].last_seen == Some(now) by {
            assert(touched.store.tables.agents[i] == tables::seen(state.store.tables.agents[i], a.id, now));
        }
    }
}

/// An agent gets no token without its secret, while it is not active, or for a scope that is not its own.
pub proof fn what_agents_need(state: StateV, headers: HeadersV, f: TokenRequest, fresh: Seq<char>, now: u64)
    requires
        f.grant_type@ == "client_credentials"@,
    ensures
        ({
            let out = grants::token_outcome(state, headers, f, fresh, now);
            &&& out.1.status == 200 ==> exists|a: AgentV| #[trigger]
                agent_proves(state, headers, a) && may_ask(a, agent_asks(a, f.scope@))
            &&& out.1.status != 200 ==> out.0 == state && (access_laws::refuses(out.1, "invalid_client"@)
                || access_laws::refuses(out.1, "invalid_scope"@) || access_laws::refuses(out.1, "server_error"@))
            &&& agents::authenticated(state, headers) is None ==> access_laws::refuses(out.1, "invalid_client"@)
        }),
{
    access_laws::what_a_refusal_says("invalid_client"@, "agent credentials required"@);
    access_laws::what_a_refusal_says("invalid_client"@, "invalid agent credentials"@);
    access_laws::what_a_refusal_says("invalid_scope"@, "scope exceeds agent grant"@);
    access_laws::what_a_refusal_says("server_error"@, "signing failed"@);
    let out = grants::token_outcome(state, headers, f, fresh, now);
    if out.1.status == 200 {
        let a = agents::authenticated(state, headers)->0;
        assert(agent_proves(state, headers, a));
    }
}

// ---------------------------------------------------------------------------------------------
// Introspection
// ---------------------------------------------------------------------------------------------

/// Whether a request carries the name and the secret of a service: a registered client with a secret, whose
/// name starts with `svc_`.
pub open spec fn service_asks(state: StateV, headers: HeadersV) -> bool {
    cookies::basic(headers) matches Some(cred) && {
        &&& text::has_prefix(cred.0, "svc_"@)
        &&& state.store.with_client(cred.0) matches Some(c) && (c.secret_hash matches Some(h)
            && crypto::argon2_matches(cred.1, h) && crypto::small_parallelism(h))
    }
}

/// Whether the one whom a token is about is still there: an active agent, or a person who is not disabled.
pub open spec fn still_there(state: StateV, c: ClaimsV) -> bool {
    if text::has_prefix(c.aud, "agt_"@) {
        state.store.with_agent(c.aud) matches Some(a) && a.status == "active"@
    } else {
        state.store.with_id(c.sub) matches Some(u) && !u.disabled
    }
}

/// A service learns whether a token is active: it is exactly if it is accepted and the one whom it is about
/// is still there. Of an active token it learns the subject, the audience, the issuer and the end, as the
/// token says them; of others nothing. Who is no service learns nothing at all.
pub proof fn what_introspection_says(state: StateV, headers: HeadersV, token: Seq<char>, now: u64)
    ensures
        ({
            let r = oidc::introspect_reply(state, headers, token, now);
            let read = tokens::verified(state.key, text::without_trailing(state.config.external_url, '/'), token, now);
            let active = read matches Ok(c) && still_there(state, c);
            &&& account_laws::gives_nothing(r)
            &&& !service_asks(state, headers) ==> r.status == 401 && said(r, "active"@) is None && said(r, "sub"@)
                is None && said(r, "error"@) == Some(JsonV::Str("invalid_client"@))
            &&& service_asks(state, headers) ==> r.status == 200 && said(r, "active"@) == Some(JsonV::Bool(active))
            &&& service_asks(state, headers) && !active ==> said(r, "sub"@) is None && said(r, "aud"@) is None
                && said(r, "exp"@) is None
            &&& service_asks(state, headers) && active ==> {
                let c = read->Ok_0;
                &&& said(r, "sub"@) == Some(JsonV::Str(c.sub))
                &&& said(r, "aud"@) == Some(JsonV::Str(c.aud))
                &&& said(r, "iss"@) == Some(JsonV::Str(c.iss))
                &&& said(r, "exp"@) == Some(JsonV::Num(c.exp))
                &&& said(r, "scope"@) == Some(JsonV::Str(""@))
            }
        }),
{
    reveal_strlit("active");
    reveal_strlit("sub");
    reveal_strlit("aud");
    reveal_strlit("iss");
    reveal_strlit("exp");
    reveal_strlit("scope");
    reveal_strlit("error");
    assert("active"@.len() == 6);
    assert("sub"@.len() == 3 && "sub"@[0] == 's');
    assert("aud"@.len() == 3 && "aud"@[0] == 'a');
    assert("iss"@.len() == 3 && "iss"@[0] == 'i');
    assert("exp"@.len() == 3 && "exp"@[0] == 'e');
    assert("scope"@.len() == 5 && "scope"@[0] == 's');
    assert("error"@.len() == 5 && "error"@[0] == 'e');
    let e = seq![("error"@, JsonV::Str("invalid_client"@))];
    json::member_of_no_pair(e, "active"@);
    json::member_of_no_pair(e, "sub"@);
    json::member_of_pair(e, 0);
    let n = seq![("active"@, JsonV::Bool(false))];
    json::member_of_pair(n, 0);
    json::member_of_no_pair(n, "sub"@);
    json::member_of_no_pair(n, "aud"@);
    json::member_of_no_pair(n, "exp"@);
    match tokens::verified(state.key, state.config.issuer(), token, now) {
        Ok(c) => {
            let p = oidc::active_members(c);
            json::member_of_pair(p, 0);
            json::member_of_pair(p, 1);
            json::member_of_pair(p, 2);
            json::member_of_pair(p, 3);
            json::member_of_pair(p, 4);
            json::member_of_pair(p, 5);
        },
        Err(_) => {},
    }
}

// ---------------------------------------------------------------------------------------------
// Profiles
// ---------------------------------------------------------------------------------------------

/// A bearer token that is accepted opens the profile of the one whom it is about: of a person the
/// identifier, the email and the name as they are stored; of an agent its identifier and name, whom it
/// acts for, and the subject of the token. Without such a token there is no profile.
pub proof fn what_a_profile_says(state: StateV, headers: HeadersV, now: u64)
    ensures
        ({
            let r = oidc::userinfo_reply(state, headers, now);
            let read = tokens::verified(
                state.key,
                text::without_trailing(state.config.external_url, '/'),
                cookies::bearer(headers),
                now,
            );
            &&& account_laws::gives_nothing(r)
            &&& read is Err ==> r.status == 401 && said(r, "sub"@) is None && said(r, "email"@) is None && said(
                r,
                "error"@,
            ) == Some(JsonV::Str("invalid_token"@))
            &&& read matches Ok(c) ==> {
                &&& r.status == 200
                &&& said(r, "sub"@) == Some(JsonV::Str(c.sub))
                &&& text::has_prefix(c.aud, "agt_"@) ==> {
                    &&& said(r, "kind"@) == Some(JsonV::Str("agent"@))
                    &&& said(r, "agent_id"@) == Some(JsonV::Str(c.aud))
                    &&& said(r, "acting_for"@) == Some(
                        JsonV::Str(
                            match c.email {
                                Some(e) => e,
                                None => Seq::empty(),
                            },
                        ),
                    )
                    &&& said(r, "name"@) == Some(
                        JsonV::Str(
                            match state.store.with_agent(c.aud) {
                                Some(a) => a.name,
                                None => Seq::empty(),
                            },
                        ),
                    )
                }
                &&& !text::has_prefix(c.aud, "agt_"@) ==> match state.store.with_id(c.sub) {
                    Some(u) => {
                        &&& said(r, "kind"@) == Some(JsonV::Str("human"@))
                        &&& said(r, "email"@) == Some(JsonV::Str(u.email))
                        &&& said(r, "name"@) == Some(JsonV::Str(u.name))
                    },
                    None => said(r, "email"@) is None && said(r, "name"@) is None,
                }
            }
        }),
{
    reveal_strlit("sub");
    reveal_strlit("kind");
    reveal_strlit("agent_id");
    reveal_strlit("acting_for");
    reveal_strlit("name");
    reveal_strlit("email");
    reveal_strlit("error");
    assert("sub"@.len() == 3);
    assert("kind"@.len() == 4 && "kind"@[0] == 'k');
    assert("name"@.len() == 4 && "name"@[0] == 'n');
    assert("agent_id"@.len() == 8 && "acting_for"@.len() == 10);
    assert("email"@.len() == 5 && "email"@[1] == 'm');
    assert("error"@.len() == 5 && "error"@[1] == 'r');
    let e = seq![("error"@, JsonV::Str("invalid_token"@))];
    json::member_of_pair(e, 0);
    json::member_of_no_pair(e, "sub"@);
    json::member_of_no_pair(e, "email"@);
    match oidc::bearer_view(state, headers, now) {
        Ok(c) => {
            store_laws::people_are_found_by_their_keys(state.store, c.sub);
            let p = oidc::agent_profile(state, c);
            json::member_of_pair(p, 0);
            json::member_of_pair(p, 1);
            json::member_of_pair(p, 2);
            json::member_of_pair(p, 3);
            json::member_of_pair(p, 4);
            let q = oidc::person_profile(state, c);
            json::member_of_pair(q, 0);
            if state.store.with_id(c.sub) is Some {
                json::member_of_pair(q, 1);
                json::member_of_pair(q, 2);
                json::member_of_pair(q, 3);
            } else {
                json::member_of_no_pair(q, "email"@);
                json::member_of_no_pair(q, "name"@);
            }
        },
        Err(_) => {},
    }
}

} // verus!
