//! What the audit log tells.

use crate::access_laws;
use crate::account_laws;
use crate::agents;
use crate::agents::AgentCreate;
use crate::authorize;
use crate::authorize::{ConsentForm, QueryV};
use crate::cookies;
use crate::github;
use crate::github::IdentityV;
use crate::grants;
use crate::grants::TokenRequest;
use crate::http::{HeadersV, StateV};
use crate::json;
use crate::json::JsonV;
use crate::login;
use crate::login::RegisterForm;
use crate::rows::{AgentV, AuditEntryV, UserV};
use crate::store;
use crate::store_laws;
use crate::tables::ChangeV;
use crate::text;
use vstd::prelude::*;
use vstd::string::*;

verus! {

/// Whether, on the way from one state to another, an event was noted: when, of whom, and with what detail.
pub open spec fn noted(
    a: StateV,
    b: StateV,
    event: Seq<char>,
    user_id: Option<Seq<char>>,
    now: u64,
    v: JsonV,
) -> bool {
    exists|k: int|
        a.store.journal.len() <= k < b.store.journal.len() && #[trigger] b.store.journal[k] == (ChangeV::InsertAudit {
            entry: AuditEntryV { at: now, event, user_id, detail: json::json_text(v) },
        })
}

/// Whether the log takes entries now.
pub open spec fn log_open(state: StateV, now: u64) -> bool {
    state.store.reachable && now <= store_laws::last_time()
}

proof fn note_is_noted(a: StateV, s: StateV, event: Seq<char>, user_id: Option<Seq<char>>, v: JsonV, now: u64)
    requires
        log_open(s, now),
        a.store.journal.len() <= s.store.journal.len(),
    ensures
        noted(a, s.note(event, user_id, v, now), event, user_id, now, v),
        log_open(s.note(event, user_id, v, now), now),
        a.store.journal.len() <= s.note(event, user_id, v, now).store.journal.len(),
{
    let t = s.note(event, user_id, v, now);
    let k = s.store.journal.len() as int;
    assert(t.store.journal[k] == store::new_entry(event, user_id, v, now));
}

proof fn noted_before(
    a: StateV,
    s: StateV,
    c: ChangeV,
    event: Seq<char>,
    user_id: Option<Seq<char>>,
    v: JsonV,
    now: u64,
)
    requires
        noted(a, s, event, user_id, now, v),
    ensures
        noted(a, s.step(c), event, user_id, now, v),
{
    let k = choose|k: int|
        a.store.journal.len() <= k < s.store.journal.len() && #[trigger] s.store.journal[k] == (ChangeV::InsertAudit {
            entry: AuditEntryV { at: now, event, user_id, detail: json::json_text(v) },
        });
    assert(s.step(c).store.journal[k] == s.store.journal[k]);
}

proof fn detail_says(key: Seq<char>, value: Seq<char>)
    ensures
        json::member_str(login::detail1(key, value), key) == Some(value),
{
    json::member_of_pair(seq![(key, JsonV::Str(value))], 0);
}

/// A new account is noted, with its email.
pub proof fn new_accounts_are_noted(
    state: StateV,
    headers: HeadersV,
    f: RegisterForm,
    hash: Option<Seq<char>>,
    token: Seq<char>,
    sid: Seq<char>,
    now: u64,
)
    requires
        log_open(state, now),
        login::register_outcome(state, headers, f, hash, token, sid, now).1.status == 303,
    ensures
        exists|v: JsonV| #[trigger]
            noted(
                state,
                login::register_outcome(state, headers, f, hash, token, sid, now).0,
                "register"@,
                Some("usr_"@ + token),
                now,
                v,
            ) && json::member_str(v, "email"@) == Some(text::lowercase(text::trimmed(f.email@))),
{
    let email = login::normal_email(f.email@);
    let id = login::user_id(token);
    let c = store::new_user(id, email, text::trimmed(f.name@), hash, None, false, now);
    let v = login::detail1("email"@, email);
    detail_says("email"@, email);
    let s1 = state.step(c);
    note_is_noted(state, s1, "register"@, Some(id), v, now);
    let s2 = s1.note("register"@, Some(id), v, now);
    noted_before(state, s2, ChangeV::PromoteAdmin { email }, "register"@, Some(id), v, now);
    let s3 = login::bootstrapped(s2, email);
    noted_before(
        state,
        s3,
        store::new_session(sid, id, state.config.session_ttl, ""@, now),
        "register"@,
        Some(id),
        v,
        now,
    );
    let out = login::register_outcome(state, headers, f, hash, token, sid, now).0;
    assert(out == s3.step(store::new_session(sid, id, state.config.session_ttl, ""@, now)));
    assert(noted(state, out, "register"@, Some(id), now, v));
}

/// A GitHub account that is linked, or that a new person comes with, is noted.
pub proof fn new_github_accounts_are_noted(
    state: StateV,
    who: IdentityV,
    token: Seq<char>,
    sid: Seq<char>,
    now: u64,
)
    requires
        log_open(state, now),
        state.store.with_github(who.id) is None,
    ensures
        ({
            let out = github::finish_outcome(state, who, token, sid, now);
            &&& state.store.with_email(who.email) matches Some(u) ==> exists|v: JsonV| #[trigger]
                noted(state, out.0, "github_link"@, Some(u.id), now, v) && json::member_str(v, "gh_id"@) == Some(
                    who.id,
                )
            &&& state.store.with_email(who.email) is None && out.1.status == 303 ==> exists|v: JsonV| #[trigger]
                noted(state, out.0, "register_github"@, Some("usr_"@ + token), now, v)
        }),
{
    let out = github::finish_outcome(state, who, token, sid, now);
    match github::account_for(state, who, token, now) {
        None => {},
        Some(p) => {
            let (event, id, v, c) = match state.store.with_email(who.email) {
                Some(u) => (
                    "github_link"@,
                    u.id,
                    login::detail1("gh_id"@, who.id),
                    ChangeV::LinkGithub { user_id: u.id, github_id: who.id },
                ),
                None => (
                    "register_github"@,
                    login::user_id(token),
                    login::no_detail(),
                    store::new_user(
                        login::user_id(token),
                        who.email,
                        who.name,
                        None,
                        Some(who.id),
                        false,
                        now,
                    ),
                ),
            };
            detail_says("gh_id"@, who.id);
            note_is_noted(state, state.step(c), event, Some(id), v, now);
            assert(p.0 == state.step(c).note(event, Some(id), v, now));
            noted_before(state, p.0, ChangeV::PromoteAdmin { email: p.1.email }, event, Some(id), v, now);
            let s1 = login::bootstrapped(p.0, p.1.email);
            let d = store::new_session(sid, p.1.id, state.config.session_ttl, ""@, now);
            noted_before(state, s1, d, event, Some(id), v, now);
            noted_before(
                state,
                s1.step(d),
                store::new_entry("login_github"@, Some(p.1.id), login::no_detail(), now),
                event,
                Some(id),
                v,
                now,
            );
            assert(noted(state, out.0, event, Some(id), now, v));
        },
    }
}

/// A decision is noted, with the client and the scope, and so is a code that is issued.
pub proof fn decisions_and_codes_are_noted(
    state: StateV,
    headers: HeadersV,
    f: ConsentForm,
    code: Seq<char>,
    now: u64,
    user: UserV,
    q: QueryV,
    event: Seq<char>,
)
    requires
        log_open(state, now),
        event == if f.decision@ == "approve"@ {
            "consent_approved"@
        } else {
            "consent_denied"@
        },
        account_laws::token_comes_back(headers, f.csrf@),
        cookies::signed_in(state, headers, now) == Some(user),
        f.params@ == crate::encoding::url_encoded(authorize::authorize_url(q)),
        access_laws::client_known(state, q),
    ensures
        ({
            let out = authorize::consent_outcome(state, headers, f, code, now);
            &&& exists|v: JsonV| #[trigger]
                noted(state, out.0, event, Some(user.id), now, v) && json::member_str(v, "client"@) == Some(
                    q.client_id,
                ) && json::member_str(v, "scope"@) == Some(access_laws::asked_scope(q))
            &&& f.decision@ == "approve"@ && access_laws::code_fits(state, code, now)
                ==> account_laws::last_noted(out.0, "auth_code_issued"@, Some(user.id), now)
        }),
{
    authorize::query_round_trip(q);
    let out = authorize::consent_outcome(state, headers, f, code, now);
    let approved = f.decision@ == "approve"@;
    let scope = access_laws::asked_scope(q);
    let v = authorize::consent_detail(q.client_id, scope);
    let p = seq![("client"@, JsonV::Str(q.client_id)), ("scope"@, JsonV::Str(scope))];
    reveal_strlit("client");
    reveal_strlit("scope");
    assert("client"@.len() == 6 && "scope"@.len() == 5);
    json::member_of_pair(p, 0);
    json::member_of_pair(p, 1);
    let c = store::new_consent(
        user.id,
        q.client_id,
        scope,
        if approved {
            "approved"@
        } else {
            "denied"@
        },
        now,
    );
    let s1 = state.step(c);
    note_is_noted(state, s1, event, Some(user.id), v, now);
    let s2 = s1.note(event, Some(user.id), v, now);
    let d = ChangeV::InsertAuthCode { auth_code: authorize::code_for(user, q, code, now) };
    noted_before(state, s2, d, event, Some(user.id), v, now);
    let e = store::new_entry("auth_code_issued"@, Some(user.id), login::detail1("client"@, q.client_id), now);
    noted_before(state, s2.step(d), e, event, Some(user.id), v, now);
    assert(out == authorize::decide_outcome(state, user, q, approved, code, now));
    assert(noted(state, out.0, event, Some(user.id), now, v));
    store_laws::when_rows_are_taken(s2.store, d);
}

/// A new agent is noted, with its identifier and its name.
pub proof fn new_agents_are_noted(
    state: StateV,
    headers: HeadersV,
    body: AgentCreate,
    secret_token: Seq<char>,
    hash: Option<Seq<char>>,
    id_token: Seq<char>,
    now: u64,
    user: UserV,
)
    requires
        log_open(state, now),
        cookies::signed_in(state, headers, now) == Some(user),
        agents::agents_create_outcome(state, headers, body, secret_token, hash, id_token, now).1.status == 201,
    ensures
        exists|v: JsonV| #[trigger]
            noted(
                state,
                agents::agents_create_outcome(state, headers, body, secret_token, hash, id_token, now).0,
                "agent_created"@,
                Some(user.id),
                now,
                v,
            ) && json::member_str(v, "agent"@) == Some("agt_"@ + id_token) && json::member_str(v, "name"@) == Some(
                text::trimmed(body.name@),
            ),
{
    let id = agents::agt(id_token);
    let name = text::trimmed(body.name@);
    reveal_strlit("agent");
    reveal_strlit("name");
    assert("agent"@.len() == 5 && "name"@.len() == 4);
    let p = seq![("agent"@, JsonV::Str(id)), ("name"@, JsonV::Str(name))];
    json::member_of_pair(p, 0);
    json::member_of_pair(p, 1);
    let v = agents::agent_detail(id, name);
    let c = store::new_agent(
        id,
        user.id,
        name,
        hash->0,
        agents::granted_scopes(text::list_view(body.scopes@)),
        json::json_view(body.metadata),
        now,
    );
    note_is_noted(state, state.step(c), "agent_created"@, Some(user.id), v, now);
    let out = agents::agents_create_outcome(state, headers, body, secret_token, hash, id_token, now).0;
    assert(out == state.step(c).note("agent_created"@, Some(user.id), v, now));
    assert(noted(state, out, "agent_created"@, Some(user.id), now, v));
}

/// A token that an agent gets is noted, with the agent.
pub proof fn agent_tokens_are_noted(
    state: StateV,
    headers: HeadersV,
    f: TokenRequest,
    fresh: Seq<char>,
    now: u64,
    a: AgentV,
)
    requires
        log_open(state, now),
        f.grant_type@ == "client_credentials"@,
        agents::authenticated(state, headers) == Some(a),
        grants::token_outcome(state, headers, f, fresh, now).1.status == 200,
    ensures
        exists|v: JsonV, u: Seq<char>| #[trigger]
            noted(
                state,
                grants::token_outcome(state, headers, f, fresh, now).0,
                "agent_token"@,
                Some(u),
                now,
                v,
            ) && json::member_str(v, "agent"@) == Some(a.id),
{
    let u = grants::acting_for(state, a);
    let c = ChangeV::TouchAgent { id: a.id, at: now };
    let v = login::detail1("agent"@, a.id);
    detail_says("agent"@, a.id);
    note_is_noted(state, state.step(c), "agent_token"@, Some(u.id), v, now);
    let out = grants::token_outcome(state, headers, f, fresh, now).0;
    assert(out == state.step(c).note("agent_token"@, Some(u.id), v, now));
    assert(noted(state, out, "agent_token"@, Some(u.id), now, v));
}

/// A status that is set is noted, with the agent.
pub proof fn statuses_are_noted(
    state: StateV,
    headers: HeadersV,
    agent_id: Seq<char>,
    status: Seq<char>,
    now: u64,
    user: UserV,
    event: Seq<char>,
)
    requires
        log_open(state, now),
        event == if status == "revoked"@ {
            "agent_revoked"@
        } else {
            "agent_reactivated"@
        },
        cookies::signed_in(state, headers, now) == Some(user),
        agents::set_status_outcome(state, headers, agent_id, status, now).1.status == 200,
    ensures
        exists|v: JsonV| #[trigger]
            noted(
                state,
                agents::set_status_outcome(state, headers, agent_id, status, now).0,
                event,
                Some(user.id),
                now,
                v,
            ) && json::member_str(v, "agent"@) == Some(agent_id),
{
    let c = ChangeV::SetAgentStatus { id: agent_id, owner: user.id, status };
    let v = login::detail1("agent"@, agent_id);
    detail_says("agent"@, agent_id);
    note_is_noted(state, state.step(c), event, Some(user.id), v, now);
    let out = agents::set_status_outcome(state, headers, agent_id, status, now).0;
    assert(out == state.step(c).note(event, Some(user.id), v, now));
    assert(noted(state, out, event, Some(user.id), now, v));
}

} // verus!
