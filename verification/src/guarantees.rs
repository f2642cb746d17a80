//! What the provider guarantees across requests.

use crate::agents;
use crate::agents::AgentCreate;
use crate::authorize;
use crate::authorize::{ConsentForm, QueryV};
use crate::cookies;
use crate::crypto;
use crate::encoding;
use crate::github;
use crate::github::IdentityV;
use crate::grants;
use crate::grants::TokenRequest;
use crate::http;
use crate::http::{BodyV, HeadersV, StateV};
use crate::json;
use crate::json::JsonV;
use crate::laws;
use crate::login;
use crate::login::{LoginForm, RegisterForm};
use crate::oidc;
use crate::oidc::ClientRegistration;
use crate::pages;
use crate::rows::{AgentV, UserV};
use crate::store;
use crate::store::StoreV;
use crate::tables;
use crate::tables::{ChangeV, Tables};
use crate::text;
use crate::tokens;
use crate::tokens::ClaimsV;
use vstd::prelude::*;
use vstd::string::*;
use vstd::utf8::*;

verus! {

// ---------------------------------------------------------------------------------------------
// What no request can break
// ---------------------------------------------------------------------------------------------

/// The store after several changes were asked of it, from the first on.
pub open spec fn steps(s: StoreV, cs: Seq<ChangeV>) -> StoreV
    decreases cs.len(),
{
    if cs.len() == 0 {
        s
    } else {
        steps(s, cs.drop_last()).step(cs.last())
    }
}

/// Whether the provider came to be as it is by changes to its store, and by nothing else.
pub open spec fn follows(a: StateV, b: StateV) -> bool {
    a.config == b.config && a.key == b.key && exists|cs: Seq<ChangeV>| #[trigger] steps(a.store, cs) == b.store
}

/// Whether all changes are of a kind.
pub open spec fn all_of(cs: Seq<ChangeV>, p: spec_fn(ChangeV) -> bool) -> bool {
    forall|i: int| 0 <= i < cs.len() ==> p(#[trigger] cs[i])
}

/// Whether the provider came to be as it is by changes to its store of one kind, and by nothing else.
pub open spec fn follows_by(a: StateV, b: StateV, p: spec_fn(ChangeV) -> bool) -> bool {
    a.config == b.config && a.key == b.key && exists|cs: Seq<ChangeV>| #[trigger]
        steps(a.store, cs) == b.store && all_of(cs, p)
}

/// Whether a change leaves the status of every agent alone.
pub open spec fn quiet() -> spec_fn(ChangeV) -> bool {
    |c: ChangeV| !(c is SetAgentStatus)
}

/// Whether no change set the status of an agent.
pub open spec fn follows_quietly(a: StateV, b: StateV) -> bool {
    follows_by(a, b, quiet())
}

/// Whether a change stores secrets as hashes alone.
pub open spec fn hashing() -> spec_fn(ChangeV) -> bool {
    |c: ChangeV| laws::hashed_change(c)
}

/// Whether every change stored secrets as hashes alone.
pub open spec fn follows_hashing(a: StateV, b: StateV) -> bool {
    follows_by(a, b, hashing())
}

proof fn by_step(a: StateV, b: StateV, c: ChangeV, p: spec_fn(ChangeV) -> bool)
    requires
        follows_by(a, b, p),
        p(c),
    ensures
        follows_by(a, b.step(c), p),
{
    let cs = choose|cs: Seq<ChangeV>| #[trigger] steps(a.store, cs) == b.store && all_of(cs, p);
    assert(cs.push(c).drop_last() =~= cs);
    assert(steps(a.store, cs.push(c)) == b.store.step(c));
    assert(all_of(cs.push(c), p));
}

proof fn follows_self(a: StateV)
    ensures
        follows(a, a),
        follows_quietly(a, a),
        follows_hashing(a, a),
{
    let cs = Seq::<ChangeV>::empty();
    assert(steps(a.store, cs) == a.store);
    assert(all_of(cs, quiet()));
    assert(all_of(cs, hashing()));
}

proof fn follows_step(a: StateV, b: StateV, c: ChangeV)
    requires
        follows(a, b),
    ensures
        follows(a, b.step(c)),
        follows_quietly(a, b) && quiet()(c) ==> follows_quietly(a, b.step(c)),
        follows_hashing(a, b) && laws::hashed_change(c) ==> follows_hashing(a, b.step(c)),
{
    let cs = choose|cs: Seq<ChangeV>| #[trigger] steps(a.store, cs) == b.store;
    assert(cs.push(c).drop_last() =~= cs);
    assert(cs.push(c).last() == c);
    assert(steps(a.store, cs.push(c)) == b.store.step(c));
    if follows_quietly(a, b) && quiet()(c) {
        by_step(a, b, c, quiet());
    }
    if follows_hashing(a, b) && laws::hashed_change(c) {
        by_step(a, b, c, hashing());
    }
}

proof fn follows_note(
    a: StateV,
    b: StateV,
    event: Seq<char>,
    user_id: Option<Seq<char>>,
    detail: JsonV,
    now: u64,
)
    requires
        follows(a, b),
    ensures
        follows(a, b.note(event, user_id, detail, now)),
        follows_quietly(a, b) ==> follows_quietly(a, b.note(event, user_id, detail, now)),
        follows_hashing(a, b) ==> follows_hashing(a, b.note(event, user_id, detail, now)),
{
    follows_step(a, b, store::new_entry(event, user_id, detail, now));
}

/// What was true of two requests is true of both together.
pub proof fn follows_on(a: StateV, b: StateV, c: StateV)
    requires
        follows(a, b),
        follows(b, c),
    ensures
        follows(a, c),
{
    let cs = choose|cs: Seq<ChangeV>| #[trigger] steps(b.store, cs) == c.store;
    follows_all(a, b, cs);
}

proof fn follows_all(a: StateV, b: StateV, cs: Seq<ChangeV>)
    requires
        follows(a, b),
    ensures
        follows(a, StateV { store: steps(b.store, cs), ..b }),
    decreases cs.len(),
{
    if cs.len() > 0 {
        follows_all(a, b, cs.drop_last());
        follows_step(a, StateV { store: steps(b.store, cs.drop_last()), ..b }, cs.last());
    }
}

/// What was true of the changes of two requests is true of those of both together.
pub proof fn follows_by_on(a: StateV, b: StateV, c: StateV, p: spec_fn(ChangeV) -> bool)
    requires
        follows_by(a, b, p),
        follows_by(b, c, p),
    ensures
        follows_by(a, c, p),
{
    let first = choose|cs: Seq<ChangeV>| #[trigger] steps(a.store, cs) == b.store && all_of(cs, p);
    let then = choose|cs: Seq<ChangeV>| #[trigger] steps(b.store, cs) == c.store && all_of(cs, p);
    steps_join(a.store, first, then);
    assert(all_of(first + then, p));
}

proof fn steps_join(s: StoreV, first: Seq<ChangeV>, then: Seq<ChangeV>)
    ensures
        steps(s, first + then) == steps(steps(s, first), then),
    decreases then.len(),
{
    let all = first + then;
    if then.len() == 0 {
        assert(all =~= first);
    } else {
        steps_join(s, first, then.drop_last());
        assert(all.drop_last() =~= first + then.drop_last());
        assert(all.last() == then.last());
    }
}

/// Signing in changes the provider by changes to its store alone. None sets the status of an
/// agent, and secrets are stored as hashes.
pub proof fn login_follows(state: StateV, headers: HeadersV, f: LoginForm, sid: Seq<char>, now: u64)
    ensures
        follows(state, login::login_outcome(state, headers, f, sid, now).0),
        follows_quietly(state, login::login_outcome(state, headers, f, sid, now).0),
        follows_hashing(state, login::login_outcome(state, headers, f, sid, now).0),
{
    let email = login::normal_email(f.email@);
    follows_self(state);
    follows_note(state, state, "login_failed"@, None, login::detail1("email"@, email), now);
    match login::known_person(state, email, f.password@) {
        Some(u) => {
            let s1 = login::bootstrapped(state, u.email);
            follows_step(state, state, ChangeV::PromoteAdmin { email: u.email });
            let c = store::new_session(
                sid,
                u.id,
                state.config.session_ttl,
                login::or_empty(headers.forwarded_for),
                now,
            );
            follows_step(state, s1, c);
            follows_note(state, s1.step(c), "login_password"@, Some(u.id), login::no_detail(), now);
        },
        None => {},
    }
}

/// Creating an account changes the provider by changes to its store alone. None sets the status of an
/// agent, and secrets are stored as hashes.
pub proof fn register_follows(
    state: StateV,
    headers: HeadersV,
    f: RegisterForm,
    hash: Option<Seq<char>>,
    token: Seq<char>,
    sid: Seq<char>,
    now: u64,
)
    ensures
        follows(state, login::register_outcome(state, headers, f, hash, token, sid, now).0),
        follows_quietly(state, login::register_outcome(state, headers, f, hash, token, sid, now).0),
        laws::hash_or_none(hash) ==> follows_hashing(
            state,
            login::register_outcome(state, headers, f, hash, token, sid, now).0,
        ),
{
    let email = login::normal_email(f.email@);
    let id = login::user_id(token);
    let c = store::new_user(id, email, text::trimmed(f.name@), hash, None, false, now);
    follows_self(state);
    follows_step(state, state, c);
    let s1 = state.step(c).note("register"@, Some(id), login::detail1("email"@, email), now);
    follows_note(state, state.step(c), "register"@, Some(id), login::detail1("email"@, email), now);
    follows_step(state, s1, ChangeV::PromoteAdmin { email });
    let s2 = login::bootstrapped(s1, email);
    follows_step(state, s2, store::new_session(sid, id, state.config.session_ttl, ""@, now));
}

/// Signing out changes the provider by changes to its store alone. None sets the status of an
/// agent, and secrets are stored as hashes.
pub proof fn logout_follows(state: StateV, headers: HeadersV)
    ensures
        follows(state, login::logout_outcome(state, headers).0),
        follows_quietly(state, login::logout_outcome(state, headers).0),
        follows_hashing(state, login::logout_outcome(state, headers).0),
{
    follows_self(state);
    match cookies::cookie(headers, cookies::SESSION_COOKIE@) {
        Some(sid) => {
            follows_step(state, state, ChangeV::DeleteSession { id: sid });
        },
        None => {},
    }
}

/// Signing in with GitHub changes the provider by changes to its store alone. None sets the status of an
/// agent, and secrets are stored as hashes.
pub proof fn github_follows(state: StateV, who: IdentityV, token: Seq<char>, sid: Seq<char>, now: u64)
    ensures
        follows(state, github::finish_outcome(state, who, token, sid, now).0),
        follows_quietly(state, github::finish_outcome(state, who, token, sid, now).0),
        follows_hashing(state, github::finish_outcome(state, who, token, sid, now).0),
{
    follows_self(state);
    match github::account_for(state, who, token, now) {
        None => {},
        Some(p) => {
            if state.store.with_github(who.id) is None {
                match state.store.with_email(who.email) {
                    Some(u) => {
                        let c = ChangeV::LinkGithub { user_id: u.id, github_id: who.id };
                        follows_step(state, state, c);
                        follows_note(
                            state,
                            state.step(c),
                            "github_link"@,
                            Some(u.id),
                            login::detail1("gh_id"@, who.id),
                            now,
                        );
                    },
                    None => {
                        let id = login::user_id(token);
                        let c = store::new_user(id, who.email, who.name, None, Some(who.id), false, now);
                        follows_step(state, state, c);
                        follows_note(
                            state,
                            state.step(c),
                            "register_github"@,
                            Some(id),
                            login::no_detail(),
                            now,
                        );
                    },
                }
            }
            assert(follows(state, p.0));
            assert(follows_quietly(state, p.0) && follows_hashing(state, p.0));
            follows_step(state, p.0, ChangeV::PromoteAdmin { email: p.1.email });
            let s1 = login::bootstrapped(p.0, p.1.email);
            let c = store::new_session(sid, p.1.id, state.config.session_ttl, ""@, now);
            follows_step(state, s1, c);
            follows_note(state, s1.step(c), "login_github"@, Some(p.1.id), login::no_detail(), now);
        },
    }
}

proof fn issue_follows(a: StateV, state: StateV, user: UserV, q: QueryV, code: Seq<char>, now: u64)
    requires
        follows(a, state),
    ensures
        follows(a, authorize::issue_outcome(state, user, q, code, now).0),
        follows_quietly(a, state) ==> follows_quietly(a, authorize::issue_outcome(state, user, q, code, now).0),
        follows_hashing(a, state) ==> follows_hashing(a, authorize::issue_outcome(state, user, q, code, now).0),
{
    let c = ChangeV::InsertAuthCode { auth_code: authorize::code_for(user, q, code, now) };
    follows_step(a, state, c);
    follows_note(
        a,
        state.step(c),
        "auth_code_issued"@,
        Some(user.id),
        login::detail1("client"@, q.client_id),
        now,
    );
}

/// Asking for access changes the provider by changes to its store alone. None sets the status of an
/// agent, and secrets are stored as hashes.
pub proof fn authorize_follows(
    state: StateV,
    headers: HeadersV,
    q: QueryV,
    fresh: Seq<char>,
    code: Seq<char>,
    now: u64,
)
    ensures
        follows(state, authorize::authorize_outcome(state, headers, q, fresh, code, now).0),
        follows_quietly(state, authorize::authorize_outcome(state, headers, q, fresh, code, now).0),
        follows_hashing(state, authorize::authorize_outcome(state, headers, q, fresh, code, now).0),
{
    follows_self(state);
    match cookies::signed_in(state, headers, now) {
        Some(user) => {
            issue_follows(state, state, user, q, code, now);
        },
        None => {},
    }
}

/// Deciding about access changes the provider by changes to its store alone. None sets the status of an
/// agent, and secrets are stored as hashes.
pub proof fn consent_follows(state: StateV, headers: HeadersV, f: ConsentForm, code: Seq<char>, now: u64)
    ensures
        follows(state, authorize::consent_outcome(state, headers, f, code, now).0),
        follows_quietly(state, authorize::consent_outcome(state, headers, f, code, now).0),
        follows_hashing(state, authorize::consent_outcome(state, headers, f, code, now).0),
{
    follows_self(state);
    match (cookies::signed_in(state, headers, now), authorize::hidden_query(f.params@)) {
        (Some(user), Some(q)) => {
            let approved = f.decision@ == "approve"@;
            let scope = authorize::scope_or_openid(q.scope);
            let c = store::new_consent(
                user.id,
                q.client_id,
                scope,
                if approved {
                    "approved"@
                } else {
                    "denied"@
                },
                now,
            );
            follows_step(state, state, c);
            let event = if approved {
                "consent_approved"@
            } else {
                "consent_denied"@
            };
            follows_note(
                state,
                state.step(c),
                event,
                Some(user.id),
                authorize::consent_detail(q.client_id, scope),
                now,
            );
            let decided = state.step(c).note(
                event,
                Some(user.id),
                authorize::consent_detail(q.client_id, scope),
                now,
            );
            issue_follows(state, decided, user, q, code, now);
        },
        _ => {},
    }
}

/// Registering an agent changes the provider by changes to its store alone. None sets the status of an
/// agent, and secrets are stored as hashes.
pub proof fn agents_create_follows(
    state: StateV,
    headers: HeadersV,
    body: AgentCreate,
    secret_token: Seq<char>,
    hash: Option<Seq<char>>,
    id_token: Seq<char>,
    now: u64,
)
    ensures
        follows(
            state,
            agents::agents_create_outcome(state, headers, body, secret_token, hash, id_token, now).0,
        ),
        follows_quietly(
            state,
            agents::agents_create_outcome(state, headers, body, secret_token, hash, id_token, now).0,
        ),
        laws::hash_or_none(hash) ==> follows_hashing(
            state,
            agents::agents_create_outcome(state, headers, body, secret_token, hash, id_token, now).0,
        ),
{
    follows_self(state);
    match (agents::agent_refusal(state, headers, body.name@, now), hash) {
        (Ok(user), Some(h)) => {
            let id = agents::agt(id_token);
            let name = text::trimmed(body.name@);
            let c = store::new_agent(
                id,
                user.id,
                name,
                h,
                agents::granted_scopes(text::list_view(body.scopes@)),
                json::json_view(body.metadata),
                now,
            );
            follows_step(state, state, c);
            follows_note(
                state,
                state.step(c),
                "agent_created"@,
                Some(user.id),
                agents::agent_detail(id, name),
                now,
            );
        },
        _ => {},
    }
}

/// Revoking an agent changes the provider by changes to its store alone, and stores no secret.
pub proof fn set_status_follows(
    state: StateV,
    headers: HeadersV,
    agent_id: Seq<char>,
    status: Seq<char>,
    now: u64,
)
    ensures
        follows(state, agents::set_status_outcome(state, headers, agent_id, status, now).0),
        follows_hashing(state, agents::set_status_outcome(state, headers, agent_id, status, now).0),
{
    follows_self(state);
    match cookies::signed_in(state, headers, now) {
        Some(user) => {
            let c = ChangeV::SetAgentStatus { id: agent_id, owner: user.id, status };
            follows_step(state, state, c);
            follows_note(
                state,
                state.step(c),
                if status == "revoked"@ {
                    "agent_revoked"@
                } else {
                    "agent_reactivated"@
                },
                Some(user.id),
                login::detail1("agent"@, agent_id),
                now,
            );
        },
        None => {},
    }
}

/// A request for tokens changes the provider by changes to its store alone. None sets the status of an
/// agent, and secrets are stored as hashes.
pub proof fn token_follows(state: StateV, headers: HeadersV, f: TokenRequest, fresh: Seq<char>, now: u64)
    ensures
        follows(state, grants::token_outcome(state, headers, f, fresh, now).0),
        follows_quietly(state, grants::token_outcome(state, headers, f, fresh, now).0),
        follows_hashing(state, grants::token_outcome(state, headers, f, fresh, now).0),
{
    follows_self(state);
    match agents::authenticated(state, headers) {
        Some(agent) => {
            let c = ChangeV::TouchAgent { id: agent.id, at: now };
            follows_step(state, state, c);
            follows_note(
                state,
                state.step(c),
                "agent_token"@,
                Some(grants::acting_for(state, agent).id),
                login::detail1("agent"@, agent.id),
                now,
            );
        },
        None => {},
    }
    follows_step(state, state, ChangeV::MarkCodeUsed { code: f.code@ });
    let spent = StateV { store: store::after_redeeming(state.store, f.code@, now), ..state };
    assert(follows(state, spent));
    assert(follows_quietly(state, spent) && follows_hashing(state, spent));
    match state.store.redeemable(f.code@, now) {
        Some(ac) => {
            let client = grants::client_named(headers, f);
            match grants::code_refusal(spent, ac, client.0, client.1, f.redirect_uri@, f.code_verifier@) {
                Ok(user) => {
                    follows_step(
                        state,
                        spent,
                        store::new_refresh(fresh, user.id, ac.client_id, ac.scope, grants::REFRESH_TTL, now),
                    );
                },
                Err(_) => {},
            }
        },
        None => {},
    }
    follows_step(state, state, ChangeV::RotateRefresh { token: f.refresh_token@, replacement: fresh });
}

/// Registering a client changes the provider by changes to its store alone. None sets the status of an
/// agent, and secrets are stored as hashes.
pub proof fn register_client_follows(state: StateV, body: ClientRegistration, token: Seq<char>, now: u64)
    ensures
        follows(state, oidc::register_client_outcome(state, body, token, now).0),
        follows_quietly(state, oidc::register_client_outcome(state, body, token, now).0),
        follows_hashing(state, oidc::register_client_outcome(state, body, token, now).0),
{
    follows_self(state);
    follows_step(state, state, oidc::registration(body, token, now));
}

/// What changes to the store cannot break, however many there were: keys stay unique, the journal
/// tells how the tables came about, spent codes and spent refresh tokens stay spent, and whoever was
/// promoted is known as promoted.
pub proof fn what_requests_keep(a: StateV, b: StateV, start: Tables, code: Seq<char>, token: Seq<char>)
    requires
        follows(a, b),
    ensures
        tables::wf(a.store.tables) ==> tables::wf(b.store.tables),
        a.store.tables == tables::replay(start, a.store.journal) ==> b.store.tables == tables::replay(
            start,
            b.store.journal,
        ),
        laws::code_spent(a.store.tables, code) ==> laws::code_spent(b.store.tables, code),
        laws::refresh_spent(a.store.tables, token) ==> laws::refresh_spent(b.store.tables, token),
        a.store.tables.promoted.subset_of(b.store.tables.promoted),
{
    let cs = choose|cs: Seq<ChangeV>| #[trigger] steps(a.store, cs) == b.store;
    steps_keep(a.store, cs, start, code, token);
}

proof fn steps_keep(s: StoreV, cs: Seq<ChangeV>, start: Tables, code: Seq<char>, token: Seq<char>)
    ensures
        tables::wf(s.tables) ==> tables::wf(steps(s, cs).tables),
        s.tables == tables::replay(start, s.journal) ==> steps(s, cs).tables == tables::replay(
            start,
            steps(s, cs).journal,
        ),
        laws::code_spent(s.tables, code) ==> laws::code_spent(steps(s, cs).tables, code),
        laws::refresh_spent(s.tables, token) ==> laws::refresh_spent(steps(s, cs).tables, token),
        s.tables.promoted.subset_of(steps(s, cs).tables.promoted),
    decreases cs.len(),
{
    if cs.len() > 0 {
        let d = cs.drop_last();
        steps_keep(s, d, start, code, token);
        let t = steps(s, d);
        if tables::wf(s.tables) {
            laws::keys_stay_unique(t, cs.last());
        }
        if s.tables == tables::replay(start, s.journal) {
            laws::journal_tells_all(start, t, cs.last());
        }
        if laws::code_spent(s.tables, code) {
            laws::spent_codes_stay_spent(t, code, cs.last());
        }
        if laws::refresh_spent(s.tables, token) {
            laws::spent_refresh_tokens_stay_spent(t, token, cs.last());
        }
        laws::promotions_stay_remembered(t, cs.last());
    }
}

/// Passwords and secrets are stored as Argon2id hashes, and stay so whatever requests come.
pub proof fn secrets_stay_hashed(a: StateV, b: StateV)
    requires
        laws::hashed(a.store.tables),
        follows_hashing(a, b),
    ensures
        laws::hashed(b.store.tables),
{
    let cs = choose|cs: Seq<ChangeV>| #[trigger] steps(a.store, cs) == b.store && all_of(cs, hashing());
    steps_keep_hashed(a.store, cs);
}

proof fn steps_keep_hashed(s: StoreV, cs: Seq<ChangeV>)
    requires
        laws::hashed(s.tables),
        all_of(cs, hashing()),
    ensures
        laws::hashed(steps(s, cs).tables),
    decreases cs.len(),
{
    if cs.len() > 0 {
        let d = cs.drop_last();
        assert forall|i: int| 0 <= i < d.len() implies hashing()(#[trigger] d[i]) by {
            assert(d[i] == cs[i]);
        }
        steps_keep_hashed(s, d);
        assert(hashing()(cs[cs.len() - 1]));
        laws::hashes_stay_hashes(steps(s, d), cs.last());
    }
}

/// The bootstrap administrator is promoted on the first sign-in, and on that alone: after it, and
/// whatever requests come then, a sign-in promotes nobody.
pub proof fn the_bootstrap_admin_is_promoted_once(state: StateV, email: Seq<char>, later: StateV)
    requires
        state.config.bootstrap_admin_email == Some(email),
        state.store.with_email(email) is Some,
        follows(login::bootstrapped(state, email), later),
    ensures
        !state.store.tables.promoted.contains(email) ==> login::bootstrapped(state, email).store.with_email(email)
            == Some(UserV { is_admin: true, ..state.store.with_email(email)->0 }),
        login::bootstrapped(later, email) == later,
{
    laws::promotion_is_remembered(state.store, email);
    let first = login::bootstrapped(state, email);
    what_requests_keep(first, later, first.store.tables, email, email);
}

/// Whoever was promoted and is no administrator any more stays so, whoever took that away. Nobody but
/// the bootstrap administrator is promoted at all.
pub proof fn a_demoted_admin_stays_demoted(state: StateV, email: Seq<char>)
    ensures
        state.store.tables.promoted.contains(email) ==> login::bootstrapped(state, email) == state,
        state.config.bootstrap_admin_email != Some(email) ==> login::bootstrapped(state, email) == state,
{
}

/// A code is redeemed at most once: after a request with it, and whatever requests come then, it is
/// refused.
pub proof fn a_code_is_redeemed_once(
    state: StateV,
    headers: HeadersV,
    f: TokenRequest,
    fresh: Seq<char>,
    now: u64,
    later: StateV,
    headers2: HeadersV,
    f2: TokenRequest,
    fresh2: Seq<char>,
    now2: u64,
)
    requires
        f.grant_type@ == "authorization_code"@,
        f2.grant_type@ == "authorization_code"@,
        f2.code@ == f.code@,
        state.store.redeemable(f.code@, now) is Some,
        follows(grants::token_outcome(state, headers, f, fresh, now).0, later),
    ensures
        grants::token_outcome(later, headers2, f2, fresh2, now2) == (
            later,
            grants::refused("invalid_grant"@, "code invalid, expired, or replayed"@),
        ),
{
    grant_types_differ();
    let after = grants::token_outcome(state, headers, f, fresh, now).0;
    let spent = StateV { store: store::after_redeeming(state.store, f.code@, now), ..state };
    laws::codes_are_redeemed_once(state.store, f.code@, now, now2);
    assert(laws::code_spent(spent.store.tables, f.code@));
    follows_self(spent);
    let ac = state.store.redeemable(f.code@, now)->0;
    let client = grants::client_named(headers, f);
    match grants::code_refusal(spent, ac, client.0, client.1, f.redirect_uri@, f.code_verifier@) {
        Ok(user) => {
            follows_step(
                spent,
                spent,
                store::new_refresh(fresh, user.id, ac.client_id, ac.scope, grants::REFRESH_TTL, now),
            );
        },
        Err(_) => {},
    }
    assert(follows(spent, after));
    follows_on(spent, after, later);
    what_requests_keep(spent, later, state.store.tables, f.code@, f.code@);
    laws::codes_are_redeemed_once(later.store, f.code@, now, now2);
}

/// The grant types differ.
pub proof fn grant_types_differ()
    ensures
        "client_credentials"@ != "authorization_code"@,
        "client_credentials"@ != "refresh_token"@,
        "authorization_code"@ != "refresh_token"@,
{
    reveal_strlit("client_credentials");
    reveal_strlit("authorization_code");
    reveal_strlit("refresh_token");
    assert("client_credentials"@[0] == 'c');
    assert("authorization_code"@[0] == 'a');
    assert("refresh_token"@[0] == 'r');
}

/// A refresh token works at most once: after a request with it, and whatever requests come then, it is
/// refused.
pub proof fn a_refresh_token_works_once(
    state: StateV,
    headers: HeadersV,
    f: TokenRequest,
    fresh: Seq<char>,
    now: u64,
    later: StateV,
    headers2: HeadersV,
    f2: TokenRequest,
    fresh2: Seq<char>,
    now2: u64,
)
    requires
        f.grant_type@ == "refresh_token"@,
        f2.grant_type@ == "refresh_token"@,
        f2.refresh_token@ == f.refresh_token@,
        state.store.refreshable(f.refresh_token@, now) is Some,
        follows(grants::token_outcome(state, headers, f, fresh, now).0, later),
    ensures
        grants::token_outcome(later, headers2, f2, fresh2, now2) == (
            later,
            grants::refused("invalid_grant"@, "refresh token invalid or reused"@),
        ),
{
    grant_types_differ();
    let after = grants::token_outcome(state, headers, f, fresh, now).0;
    laws::refresh_tokens_work_once(state.store, f.refresh_token@, fresh, now, now2);
    what_requests_keep(after, later, state.store.tables, f.refresh_token@, f.refresh_token@);
    laws::refresh_tokens_work_once(later.store, f.refresh_token@, fresh, now, now2);
}

// ---------------------------------------------------------------------------------------------
// Forms
// ---------------------------------------------------------------------------------------------

/// Every form is refused, and changes nothing, without the CSRF token of the cookie.
pub proof fn forms_need_the_csrf_token(
    state: StateV,
    headers: HeadersV,
    l: LoginForm,
    r: RegisterForm,
    c: ConsentForm,
    hash: Option<Seq<char>>,
    token: Seq<char>,
    sid: Seq<char>,
    now: u64,
)
    ensures
        !cookies::csrf_good(headers, l.csrf@) ==> login::login_outcome(state, headers, l, sid, now) == (
            state,
            pages::error_reply("Invalid CSRF token"@),
        ),
        !cookies::csrf_good(headers, r.csrf@) ==> login::register_outcome(
            state,
            headers,
            r,
            hash,
            token,
            sid,
            now,
        ) == (state, pages::error_reply("Invalid CSRF token"@)),
        !cookies::csrf_good(headers, c.csrf@) ==> authorize::consent_outcome(state, headers, c, token, now) == (
            state,
            pages::error_reply("Invalid CSRF token"@),
        ),
{
}

/// After signing in, and after creating an account, the browser is sent to a path on this site.
pub proof fn sign_in_stays_on_site(
    state: StateV,
    headers: HeadersV,
    l: LoginForm,
    r: RegisterForm,
    who: IdentityV,
    hash: Option<Seq<char>>,
    token: Seq<char>,
    sid: Seq<char>,
    now: u64,
)
    ensures
        login::login_outcome(state, headers, l, sid, now).1.location matches Some(p) ==> pages::local_path(p),
        login::register_outcome(state, headers, r, hash, token, sid, now).1.location matches Some(
            p,
        ) ==> pages::local_path(p),
        github::finish_outcome(state, who, token, sid, now).1.location matches Some(p) ==> pages::local_path(p),
{
    reveal_strlit("/");
}

/// The session cookie is out of reach of scripts and of other sites.
pub proof fn session_cookie_is_guarded(sid: Seq<char>, ttl: u64)
    ensures
        exists|front: Seq<char>|
            #[trigger] (front + "; HttpOnly; SameSite=Lax; Secure"@) == cookies::session_cookie(sid, ttl),
{
    let front = cookies::SESSION_COOKIE@ + "="@ + sid + "; Path=/; Max-Age="@ + text::decimal(ttl as nat);
    assert(front + "; HttpOnly; SameSite=Lax; Secure"@ == cookies::session_cookie(sid, ttl));
}

/// A random token is read back from the cookie that carries it.
pub proof fn cookie_is_read_back(name: Seq<char>, value: Seq<char>, headers: HeadersV)
    requires
        name == cookies::SESSION_COOKIE@ || name == cookies::CSRF_COOKIE@ || name == cookies::GH_STATE_COOKIE@,
        exists|n: nat| #[trigger] crypto::token_text(value, n),
        headers.cookie == Some(name + "="@ + value),
    ensures
        cookies::cookie(headers, name) == Some(value),
{
    let n = choose|n: nat| #[trigger] crypto::token_text(value, n);
    let b = choose|b: Seq<u8>| b.len() == n && #[trigger] encoding::base64(b, true) == value;
    encoding::b64url_is_plain(b);
    reveal_strlit("argus_session");
    reveal_strlit("argus_csrf");
    reveal_strlit("argus_gh_state");
    reveal_strlit("=");
    assert(cookies::SESSION_COOKIE@.len() == 13);
    assert(cookies::CSRF_COOKIE@.len() == 10);
    assert(cookies::GH_STATE_COOKIE@.len() == 14);
    assert("="@ =~= seq!['=']);
    let line = name + "="@ + value;
    assert forall|i: int| 0 <= i < line.len() implies #[trigger] line[i] != ';' && !text::white_space(line[i]) by {
        if i < name.len() {
            assert(line[i] == name[i]);
        } else if i == name.len() {
            assert(line[i] == '=');
        } else {
            assert(line[i] == value[i - name.len() - 1]);
            assert(encoding::url_digit(encoding::base64(b, true)[i - name.len() - 1]));
        }
    }
    assert(!line.contains(';'));
    text::split_whole(line, ';');
    assert(text::trimmed(line) == line) by {
        assert(line[0] == name[0]);
        assert(text::trim_start(line) == line);
        assert(text::trim_end(line) == line);
    }
    assert(!name.contains('='));
    text::split_front(name, '=', value);
    assert(text::split(line, ';')[0] == line);
}

// ---------------------------------------------------------------------------------------------
// Accounts and sessions
// ---------------------------------------------------------------------------------------------

/// Whoever has created an account can sign in with its email and password.
pub proof fn registered_person_is_known(
    state: StateV,
    headers: HeadersV,
    f: RegisterForm,
    hash: Seq<char>,
    token: Seq<char>,
    sid: Seq<char>,
    now: u64,
)
    requires
        login::register_problem(state, headers, f) is None,
        crypto::password_matches(f.password@, hash),
        state.store.accepts(
            store::new_user(
                login::user_id(token),
                login::normal_email(f.email@),
                text::trimmed(f.name@),
                Some(hash),
                None,
                false,
                now,
            ),
        ),
    ensures
        login::known_person(
            login::register_outcome(state, headers, f, Some(hash), token, sid, now).0,
            login::normal_email(f.email@),
            f.password@,
        ) matches Some(u) && u.id == login::user_id(token) && u.password_hash == Some(hash),
{
    let email = login::normal_email(f.email@);
    let id = login::user_id(token);
    let c = store::new_user(id, email, text::trimmed(f.name@), Some(hash), None, false, now);
    laws::stored_user_is_found(state.store, id, email, text::trimmed(f.name@), Some(hash), None, false, now);
    let s1 = state.step(c).note("register"@, Some(id), login::detail1("email"@, email), now);
    tables::first_map(
        s1.store.tables.users,
        |u: UserV| tables::promoted(u, email),
        tables::user_email(email),
    );
}

/// Whoever signs in is signed in until the session expires: a request with the session cookie is one of
/// that person.
pub proof fn sign_in_lasts(
    state: StateV,
    headers: HeadersV,
    f: LoginForm,
    sid: Seq<char>,
    now: u64,
    next: HeadersV,
    at: u64,
)
    requires
        tables::wf(state.store.tables),
        cookies::csrf_good(headers, f.csrf@),
        login::known_person(state, login::normal_email(f.email@), f.password@) is Some,
        state.store.accepts(
            store::new_session(
                sid,
                login::known_person(state, login::normal_email(f.email@), f.password@)->0.id,
                state.config.session_ttl,
                login::or_empty(headers.forwarded_for),
                now,
            ),
        ),
        at < now + state.config.session_ttl,
        cookies::cookie(next, cookies::SESSION_COOKIE@) == Some(sid),
    ensures
        cookies::signed_in(login::login_outcome(state, headers, f, sid, now).0, next, at) matches Some(u) && u.id
            == login::known_person(state, login::normal_email(f.email@), f.password@)->0.id,
{
    let u = login::known_person(state, login::normal_email(f.email@), f.password@)->0;
    let s1 = login::bootstrapped(state, u.email);
    let c = ChangeV::PromoteAdmin { email: u.email };
    laws::keys_stay_unique(state.store, c);
    tables::first_some(state.store.tables.users, tables::user_email(login::normal_email(f.email@)));
    first_by_key(state.store.tables.users, u);
    tables::first_map(
        state.store.tables.users,
        |x: UserV| tables::promoted(x, u.email),
        tables::user_id(u.id),
    );
    laws::stored_session_is_found(
        s1.store,
        sid,
        u.id,
        state.config.session_ttl,
        login::or_empty(headers.forwarded_for),
        now,
        at,
    );
}

/// A person who is found by email is the one with that identifier.
proof fn first_by_key(users: Seq<UserV>, u: UserV)
    requires
        forall|i: int, j: int|
            0 <= i < j < users.len() ==> !tables::clash(#[trigger] users[i], #[trigger] users[j]),
        tables::first(users, tables::user_email(u.email)) == Some(u),
    ensures
        tables::first(users, tables::user_id(u.id)) == Some(u),
{
    tables::first_some(users, tables::user_email(u.email));
    let k = choose|k: int| 0 <= k < users.len() && users[k] == u;
    assert forall|j: int| 0 <= j < k implies !tables::user_id(u.id)(#[trigger] users[j]) by {
        assert(!tables::clash(users[j], users[k]));
    }
    tables::first_is(users, tables::user_id(u.id), k);
}

/// Whoever signs out is signed out: the session gives no one any more.
pub proof fn sign_out_ends_the_session(state: StateV, headers: HeadersV, at: u64)
    requires
        state.store.reachable,
    ensures
        cookies::signed_in(login::logout_outcome(state, headers).0, headers, at) is None,
{
    match cookies::cookie(headers, cookies::SESSION_COOKIE@) {
        Some(sid) => {
            laws::ended_session_is_gone(state.store, sid, at);
        },
        None => {},
    }
}

/// Whoever signed in with a GitHub account is found by it the next time.
pub proof fn github_account_is_found_again(state: StateV, who: IdentityV, token: Seq<char>, now: u64)
    requires
        github::account_for(state, who, token, now) is Some,
    ensures
        match github::account_for(state, who, token, now) {
            Some(p) => p.0.store.with_github(who.id) matches Some(u) && u.id == p.1.id,
            None => false,
        },
{
    let p = github::account_for(state, who, token, now)->0;
    if state.store.with_github(who.id) is None {
        match state.store.with_email(who.email) {
            Some(u) => {
                let users = state.store.tables.users;
                let f = |x: UserV| tables::linked(x, u.id, who.id);
                let linked = users.map_values(f);
                tables::first_none(users, tables::user_github(who.id));
                tables::first_none(users, tables::other_holder(u.id, who.id));
                assert forall|j: int| 0 <= j < users.len() implies !tables::other_holder(
                    u.id,
                    who.id,
                )(#[trigger] users[j]) by {
                    assert(!tables::user_github(who.id)(users[j]));
                }
                tables::first_some(users, tables::user_email(who.email));
                let k = choose|k: int| 0 <= k < users.len() && users[k] == u;
                let g = tables::user_github(who.id);
                tables::first_none(linked, g);
                assert(linked[k] == f(u));
                assert(g(linked[k]));
                tables::first_some(linked, g);
                let x = tables::first(linked, g)->0;
                let m = choose|m: int| 0 <= m < linked.len() && linked[m] == x;
                assert(linked[m] == f(users[m]));
                assert(!g(users[m]));
            },
            None => {
                laws::stored_user_is_found(
                    state.store,
                    login::user_id(token),
                    who.email,
                    who.name,
                    None,
                    Some(who.id),
                    false,
                    now,
                );
            },
        }
    } else {
        tables::first_some(state.store.tables.users, tables::user_github(who.id));
    }
}

/// Whoever is disabled is out: no sign-in, no session, no tokens for a code, and tokens that were issued
/// before are not active.
pub proof fn disabled_people_are_out(
    state: StateV,
    u: UserV,
    email: Seq<char>,
    password: Seq<char>,
    c: ClaimsV,
    ac: crate::rows::AuthCodeV,
    client_id: Seq<char>,
    secret: Seq<char>,
    redirect_uri: Seq<char>,
    verifier: Seq<char>,
)
    requires
        u.disabled,
    ensures
        state.store.with_email(email) == Some(u) ==> login::known_person(state, email, password) is None,
        state.store.with_id(c.sub) == Some(u) && !text::has_prefix(c.aud, "agt_"@) ==> !oidc::still_stands(state, c),
        state.store.with_id(ac.user_id) == Some(u) ==> grants::code_refusal(
            state,
            ac,
            client_id,
            secret,
            redirect_uri,
            verifier,
        ) is Err,
        forall|sid: Seq<char>, now: u64| (#[trigger] state.store.of_session(sid, now)) != Some(u),
{
    assert forall|sid: Seq<char>, now: u64| (#[trigger] state.store.of_session(sid, now)) != Some(u) by {
        laws::session_gives_enabled_people(state.store, sid, now);
    }
}

// ---------------------------------------------------------------------------------------------
// Access for clients
// ---------------------------------------------------------------------------------------------

/// A text that starts with another starts with it.
proof fn sum_has_prefix(a: Seq<char>, b: Seq<char>)
    ensures
        text::has_prefix(a + b, a),
{
    assert((a + b).take(a.len() as int) =~= a);
}

/// The browser is sent to a redirect URI only if it is registered, letter for letter, for the client
/// that asks; else it stays on this site.
pub proof fn only_registered_redirects(
    state: StateV,
    headers: HeadersV,
    q: QueryV,
    fresh: Seq<char>,
    code: Seq<char>,
    now: u64,
)
    ensures
        ({
            let r = authorize::authorize_outcome(state, headers, q, fresh, code, now).1;
            let registered = state.store.with_client(q.client_id) matches Some(c) && c.redirect_uris.contains(
                q.redirect_uri,
            );
            &&& !registered ==> r.location is None && r.status == 400
            &&& r.location matches Some(l) ==> text::has_prefix(l, q.redirect_uri) || text::has_prefix(
                l,
                "/login?next="@,
            )
        }),
{
    sum_has_prefix("/login?next="@, encoding::url_encoded(authorize::authorize_url(q)));
    redirects_have_prefix(q, code);
}

/// Where the browser is sent with an error or with a code starts with the redirect URI.
proof fn redirects_have_prefix(q: QueryV, code: Seq<char>)
    ensures
        forall|error: Seq<char>, description: Seq<char>|
            text::has_prefix(
                (#[trigger] authorize::error_redirect(
                    q.redirect_uri,
                    error,
                    description,
                    q.state,
                )).location->0,
                q.redirect_uri,
            ),
        text::has_prefix(authorize::code_redirect(q, code).location->0, q.redirect_uri),
{
    let u = q.redirect_uri;
    assert forall|error: Seq<char>, description: Seq<char>|
        text::has_prefix(
            (#[trigger] authorize::error_redirect(u, error, description, q.state)).location->0,
            u,
        ) by {
        let rest = "?error="@ + error + "&error_description="@ + encoding::url_encoded(description)
            + authorize::state_part(q.state);
        let l = authorize::error_redirect(u, error, description, q.state).location->0;
        assert(l =~= u + rest);
        sum_has_prefix(u, rest);
    }
    let mark = if u.contains('?') {
        "&code="@
    } else {
        "?code="@
    };
    let rest = mark + encoding::url_encoded(code) + authorize::state_part(q.state);
    assert(authorize::code_redirect(q, code).location->0 =~= u + rest);
    sum_has_prefix(u, rest);
}

/// A decision is remembered: the next time the person is not asked again. (A query without a scope is
/// decided about as one for `openid`, so it is asked about again.)
pub proof fn decisions_are_remembered(
    state: StateV,
    user: UserV,
    q: QueryV,
    approved: bool,
    code: Seq<char>,
    now: u64,
)
    requires
        q.scope.len() > 0,
        state.store.reachable,
        tables::storable(now),
    ensures
        authorize::decide_outcome(state, user, q, approved, code, now).0.store.decision(
            user.id,
            q.client_id,
            q.scope,
        ) == Some(
            if approved {
                "approved"@
            } else {
                "denied"@
            },
        ),
{
    let decision = if approved {
        "approved"@
    } else {
        "denied"@
    };
    laws::stored_decision_counts(state.store, user.id, q.client_id, q.scope, decision, now);
}

/// A person who has approved is not asked again: a query with the same scope gets a code at once.
pub proof fn approved_queries_get_a_code(
    state: StateV,
    headers: HeadersV,
    q: QueryV,
    fresh: Seq<char>,
    code: Seq<char>,
    now: u64,
)
    requires
        authorize::query_problem(state, q) is Ok,
        cookies::signed_in(state, headers, now) is Some,
        state.store.decision(cookies::signed_in(state, headers, now)->0.id, q.client_id, q.scope) == Some(
            "approved"@,
        ),
    ensures
        authorize::authorize_outcome(state, headers, q, fresh, code, now) == authorize::issue_outcome(
            state,
            cookies::signed_in(state, headers, now)->0,
            q,
            code,
            now,
        ),
{
}

/// A code that was issued gives tokens for the person, the client and the scope that it was issued for:
/// within five minutes, to that client, for that redirect URI and, where it came with a challenge, with
/// the verifier of the challenge.
pub proof fn issued_code_gives_tokens(
    state: StateV,
    user: UserV,
    q: QueryV,
    code: Seq<char>,
    now: u64,
    headers: HeadersV,
    f: TokenRequest,
    fresh: Seq<char>,
    at: u64,
)
    requires
        state.store.accepts(ChangeV::InsertAuthCode { auth_code: authorize::code_for(user, q, code, now) }),
        at < now + authorize::CODE_TTL,
        state.store.with_id(user.id) == Some(user),
        !user.disabled,
        f.grant_type@ == "authorization_code"@,
        f.code@ == code,
        f.redirect_uri@ == q.redirect_uri,
        grants::client_named(headers, f).0 == q.client_id,
        grants::client_proves(state, q.client_id, grants::client_named(headers, f).1),
        q.code_challenge is Some ==> crypto::challenge_of(f.code_verifier@) == q.code_challenge->0,
    ensures
        ({
            let issued = authorize::issue_outcome(state, user, q, code, now).0;
            let spent = StateV { store: store::after_redeeming(issued.store, code, at), ..issued };
            grants::token_outcome(issued, headers, f, fresh, at) == grants::finish_outcome(
                spent,
                user,
                q.client_id,
                authorize::scope_or_openid(q.scope),
                q.nonce,
                f.refresh_token@.len() == 0,
                fresh,
                at,
            )
        }),
{
    grant_types_differ();
    let ac = authorize::code_for(user, q, code, now);
    laws::stored_code_is_redeemable(state.store, ac, at);
}

/// Tokens are given for a code only to the client that it was issued to, for the redirect URI that it
/// was issued for, with the client's secret where it has one, with the verifier of the challenge where
/// there is one, before it expires, and for a person who is not disabled.
pub proof fn what_a_code_needs(state: StateV, headers: HeadersV, f: TokenRequest, fresh: Seq<char>, now: u64)
    requires
        f.grant_type@ == "authorization_code"@,
        grants::token_outcome(state, headers, f, fresh, now).1.status == 200,
    ensures
        state.store.redeemable(f.code@, now) matches Some(ac) && {
            &&& ac.expires_at > now
            &&& ac.client_id == grants::client_named(headers, f).0
            &&& ac.redirect_uri == f.redirect_uri@
            &&& grants::client_proves(state, ac.client_id, grants::client_named(headers, f).1)
            &&& ac.code_challenge is Some ==> crypto::challenge_of(f.code_verifier@) == ac.code_challenge->0
            &&& state.store.with_id(ac.user_id) matches Some(u) && !u.disabled
        },
{
    grant_types_differ();
    laws::redeemed_code_is_live(state.store, f.code@, now);
}

/// A client without a secret proves itself by the challenge alone: a verifier with another challenge is
/// refused.
pub proof fn proof_key_is_enforced(
    state: StateV,
    headers: HeadersV,
    f: TokenRequest,
    fresh: Seq<char>,
    now: u64,
    challenge: Seq<char>,
)
    requires
        f.grant_type@ == "authorization_code"@,
        state.store.redeemable(f.code@, now) matches Some(ac) && ac.code_challenge == Some(challenge),
        crypto::challenge_of(f.code_verifier@) != challenge,
    ensures
        grants::token_outcome(state, headers, f, fresh, now).1.status == 400,
{
    grant_types_differ();
}

/// A client that registers itself is found: without a secret, with the redirect URIs that it named, and
/// with no scopes but standard ones.
pub proof fn registered_client_is_found(state: StateV, body: ClientRegistration, token: Seq<char>, now: u64)
    requires
        oidc::storable_uris(text::list_view(body.redirect_uris@)),
        oidc::plain_name(body.client_name@),
        state.store.accepts(oidc::registration(body, token, now)),
    ensures
        oidc::register_client_outcome(state, body, token, now).1.status == 201,
        oidc::register_client_outcome(state, body, token, now).0.store.with_client("dcr_"@ + token) matches Some(
            c,
        ) && {
            &&& c.secret_hash is None
            &&& c.registration_type == "dynamic"@
            &&& c.name == body.client_name@
            &&& c.redirect_uris == text::list_view(body.redirect_uris@)
            &&& c.scopes == text::join(oidc::registered_scopes(body.scope@), " "@)
        },
{
    let uris = text::list_view(body.redirect_uris@);
    let joined = text::join(uris, "\n"@);
    laws::stored_client_is_found(
        state.store,
        "dcr_"@ + token,
        None,
        body.client_name@,
        joined,
        text::join(oidc::registered_scopes(body.scope@), " "@),
        "dynamic"@,
        now,
    );
    reveal_strlit("\n");
    assert("\n"@ =~= seq!['\n']);
    assert forall|i: int| 0 <= i < uris.len() implies !(#[trigger] uris[i]).contains('\n') by {
        assert(oidc::storable_uri(uris[i]));
    }
    text::split_join(uris, '\n');
    let lines = text::split(joined, '\n').map_values(|l: Seq<char>| text::trimmed(l));
    assert forall|i: int| 0 <= i < uris.len() implies lines[i] == #[trigger] uris[i] by {
        assert(oidc::storable_uri(uris[i]));
    }
    assert(lines =~= uris);
    assert forall|i: int| 0 <= i < uris.len() implies (#[trigger] uris[i]).len() > 0 by {
        assert(oidc::storable_uri(uris[i]));
    }
    laws::all_kept(uris);
}

/// A refresh token is given, and stored, only where `offline_access` is in the scope.
pub proof fn refresh_needs_offline_access(
    state: StateV,
    user: UserV,
    client_id: Seq<char>,
    scope: Seq<char>,
    nonce: Option<Seq<char>>,
    want_refresh: bool,
    fresh: Seq<char>,
    now: u64,
)
    requires
        !grants::has_scope(scope, "offline_access"@),
    ensures
        grants::finish_outcome(state, user, client_id, scope, nonce, want_refresh, fresh, now).0 == state,
        grants::finish_outcome(state, user, client_id, scope, nonce, want_refresh, fresh, now).1.body matches BodyV::Json(
            v,
        ) ==> json::member(v, "refresh_token"@) is None,
{
    let access = tokens::access_token(
        state.key,
        state.config.issuer(),
        user,
        client_id,
        scope,
        state.config.access_token_ttl,
        now,
    );
    reveal_strlit("access_token");
    reveal_strlit("token_type");
    reveal_strlit("expires_in");
    reveal_strlit("exp");
    reveal_strlit("scope");
    reveal_strlit("id_token");
    reveal_strlit("refresh_token");
    reveal_strlit("error");
    reveal_strlit("error_description");
    assert("refresh_token"@.len() == 13);
    match access {
        Ok(t) => {
            let members = grants::person_grant(
                t.0,
                state.config.access_token_ttl,
                t.1,
                scope,
                grants::id_token_for(state, user, client_id, scope, nonce, now),
                None,
            );
            assert forall|j: int| 0 <= j < members.len() implies (#[trigger] members[j]).0 != "refresh_token"@ by {}
            json::member_of_no_pair(members, "refresh_token"@);
        },
        Err(_) => {
            let members = seq![
                ("error"@, JsonV::Str("server_error"@)),
                ("error_description"@, JsonV::Str("signing failed"@)),
            ];
            assert forall|j: int| 0 <= j < members.len() implies (#[trigger] members[j]).0 != "refresh_token"@ by {}
            json::member_of_no_pair(members, "refresh_token"@);
        },
    }
}

// ---------------------------------------------------------------------------------------------
// Agents
// ---------------------------------------------------------------------------------------------

/// What an agent needs for a token: its credentials, and to be active. What it gets is bounded: the
/// scope by its own scopes, the lifetime by fifteen minutes.
pub proof fn agent_tokens_are_bounded(
    state: StateV,
    headers: HeadersV,
    f: TokenRequest,
    fresh: Seq<char>,
    now: u64,
)
    requires
        f.grant_type@ == "client_credentials"@,
        grants::token_outcome(state, headers, f, fresh, now).1.status == 200,
    ensures
        match agents::authenticated(state, headers) {
            None => false,
            Some(agent) => {
                let scope = grants::agent_token_scope(agent, f.scope@);
                let t = tokens::access_token(
                    state.key,
                    state.config.issuer(),
                    grants::acting_for(state, agent),
                    agent.id,
                    scope,
                    grants::agent_ttl(state.config.access_token_ttl),
                    now,
                );
                &&& agent.status == "active"@
                &&& grants::within(scope, agent.scopes)
                &&& t is Ok && t->Ok_0.1 <= now + 900
                &&& grants::token_outcome(state, headers, f, fresh, now).1 == grants::granted(
                    grants::agent_grant(t->Ok_0.0, scope, agent.id),
                )
            },
        },
{
}

/// What the owner of an agent sets its status to is its status from then on.
pub proof fn the_kill_switch_works(
    state: StateV,
    headers: HeadersV,
    agent_id: Seq<char>,
    status: Seq<char>,
    now: u64,
)
    requires
        status == "active"@ || status == "revoked"@,
        cookies::signed_in(state, headers, now) is Some,
        state.store.with_agent(agent_id) is Some,
        state.store.with_agent(agent_id)->0.owner_user_id == cookies::signed_in(state, headers, now)->0.id,
    ensures
        agents::set_status_outcome(state, headers, agent_id, status, now).0.store.with_agent(agent_id) == Some(
            AgentV { status, ..state.store.with_agent(agent_id)->0 },
        ),
{
    let owner = cookies::signed_in(state, headers, now)->0.id;
    laws::the_owner_sets_the_status(state.store, agent_id, owner, status, agent_id.push('x'));
    assert(agent_id.push('x').len() != agent_id.len());
}

/// A revoked agent is out at once: no token that was issued to it is active any more, even one that has
/// not expired, and it gets no new one.
pub proof fn revoked_agents_are_out(
    state: StateV,
    headers: HeadersV,
    agent_id: Seq<char>,
    token: Seq<char>,
    c: ClaimsV,
    now: u64,
)
    requires
        text::has_prefix(agent_id, "agt_"@),
        state.store.with_agent(agent_id) matches Some(a) ==> a.status != "active"@,
    ensures
        tokens::verified(state.key, state.config.issuer(), token, now) == Ok::<ClaimsV, tokens::TokenError>(c)
            && c.aud == agent_id && oidc::may_introspect(state, headers) ==> oidc::introspect_reply(
            state,
            headers,
            token,
            now,
        ) == oidc::inactive(),
        match cookies::basic(headers) {
            Some(cred) => cred.0 == agent_id ==> agents::authenticated(state, headers) is None,
            None => agents::authenticated(state, headers) is None,
        },
{
}

/// An agent stays as it is, and a revoked one revoked, whatever requests come that do not set the status
/// of an agent.
pub proof fn agents_stay_as_they_are(a: StateV, b: StateV, id: Seq<char>)
    requires
        follows_quietly(a, b),
        a.store.with_agent(id) is Some,
    ensures
        b.store.with_agent(id) == a.store.with_agent(id),
{
    let cs = choose|cs: Seq<ChangeV>| #[trigger] steps(a.store, cs) == b.store && all_of(cs, quiet());
    steps_keep_agent(a.store, cs, id);
}

proof fn steps_keep_agent(s: StoreV, cs: Seq<ChangeV>, id: Seq<char>)
    requires
        all_of(cs, quiet()),
        s.with_agent(id) is Some,
    ensures
        steps(s, cs).with_agent(id) == s.with_agent(id),
    decreases cs.len(),
{
    if cs.len() > 0 {
        let d = cs.drop_last();
        assert forall|i: int| 0 <= i < d.len() implies quiet()(#[trigger] d[i]) by {
            assert(d[i] == cs[i]);
        }
        steps_keep_agent(s, d, id);
        assert(quiet()(cs[cs.len() - 1]));
        laws::agents_stay(steps(s, d), id, cs.last());
    }
}

/// A request for another status leaves every agent as it is but the one that it names, and that one too
/// where it does not come from its owner.
pub proof fn only_the_owner_revokes(
    state: StateV,
    headers: HeadersV,
    agent_id: Seq<char>,
    status: Seq<char>,
    now: u64,
    id: Seq<char>,
)
    requires
        state.store.with_agent(id) is Some,
        agent_id != id || (cookies::signed_in(state, headers, now) matches Some(u) ==> u.id
            != state.store.with_agent(id)->0.owner_user_id),
    ensures
        agents::set_status_outcome(state, headers, agent_id, status, now).0.store.with_agent(id)
            == state.store.with_agent(id),
{
    match cookies::signed_in(state, headers, now) {
        Some(user) => {
            let c = ChangeV::SetAgentStatus { id: agent_id, owner: user.id, status };
            laws::agents_stay(state.store, id, c);
        },
        None => {},
    }
}

/// An active agent's token is active, and says whom it is for.
pub proof fn active_agents_are_in(
    state: StateV,
    headers: HeadersV,
    token: Seq<char>,
    c: ClaimsV,
    now: u64,
)
    requires
        oidc::may_introspect(state, headers),
        tokens::verified(state.key, state.config.issuer(), token, now) == Ok::<ClaimsV, tokens::TokenError>(c),
        text::has_prefix(c.aud, "agt_"@),
        state.store.with_agent(c.aud) matches Some(a) && a.status == "active"@,
    ensures
        oidc::introspect_reply(state, headers, token, now) == http::plain(
            200,
            BodyV::Json(json::object(oidc::active_members(c))),
        ),
{
}

/// No one has more agents than the quota, if no one had before.
pub proof fn the_quota_holds(
    state: StateV,
    headers: HeadersV,
    body: AgentCreate,
    secret_token: Seq<char>,
    hash: Option<Seq<char>>,
    id_token: Seq<char>,
    now: u64,
    owner: Seq<char>,
)
    requires
        store::owned_by_age(state.store.tables.agents, owner).len() <= agents::MAX_AGENTS,
    ensures
        store::owned_by_age(
            agents::agents_create_outcome(
                state,
                headers,
                body,
                secret_token,
                hash,
                id_token,
                now,
            ).0.store.tables.agents,
            owner,
        ).len() <= agents::MAX_AGENTS,
{
    let after = agents::agents_create_outcome(state, headers, body, secret_token, hash, id_token, now).0;
    match (agents::agent_refusal(state, headers, body.name@, now), hash) {
        (Ok(user), Some(h)) => {
            let c = store::new_agent(
                agents::agt(id_token),
                user.id,
                text::trimmed(body.name@),
                h,
                agents::granted_scopes(text::list_view(body.scopes@)),
                json::json_view(body.metadata),
                now,
            );
            if state.store.accepts(c) {
                let rows = state.store.tables.agents;
                let more = after.store.tables.agents;
                assert(more.drop_last() =~= rows);
                if more.last().owner_user_id == owner {
                    laws::inserted_adds_one(store::owned_by_age(rows, owner), store::agent_of(more.last()));
                }
            }
        },
        _ => {},
    }
}

// ---------------------------------------------------------------------------------------------
// Tokens
// ---------------------------------------------------------------------------------------------

/// Who may not look into tokens learns nothing.
pub proof fn introspection_needs_a_service(state: StateV, headers: HeadersV, token: Seq<char>, now: u64)
    requires
        !oidc::may_introspect(state, headers),
    ensures
        oidc::introspect_reply(state, headers, token, now) == http::plain(
            401,
            BodyV::Json(agents::error_json("invalid_client"@)),
        ),
{
}

/// A person's token opens that person's profile.
pub proof fn a_token_opens_the_profile(
    state: StateV,
    headers: HeadersV,
    user: UserV,
    client_id: Seq<char>,
    nonce: Option<Seq<char>>,
    exp: u64,
    iat: u64,
    now: u64,
)
    requires
        oidc::bearer_view(state, headers, now) == Ok::<ClaimsV, tokens::TokenError>(
            tokens::claims_about(state.config.issuer(), user, client_id, nonce, exp, iat),
        ),
        !text::has_prefix(client_id, "agt_"@),
        state.store.with_id(user.id) == Some(user),
    ensures
        oidc::userinfo_reply(state, headers, now) == http::plain(
            200,
            BodyV::Json(
                json::object(
                    seq![
                        ("sub"@, JsonV::Str(user.id)),
                        ("kind"@, JsonV::Str("human"@)),
                        ("email"@, JsonV::Str(user.email)),
                        ("name"@, JsonV::Str(user.name)),
                    ],
                ),
            ),
        ),
{
}

/// `Basic` credentials are read as they were written: the name ends at the first colon.
pub proof fn basic_credentials_are_read(headers: HeadersV, id: Seq<char>, secret: Seq<char>)
    requires
        !id.contains(':'),
        headers.authorization == Some(
            "Basic "@ + encoding::base64(encode_utf8(id + seq![':'] + secret), false),
        ),
    ensures
        cookies::basic(headers) == Some((id, secret)),
{
    let plain = id + seq![':'] + secret;
    let enc = encoding::base64(encode_utf8(plain), false);
    let line = "Basic "@ + enc;
    sum_has_prefix("Basic "@, enc);
    assert(line.skip("Basic "@.len() as int) =~= enc);
    encoding::base64_round_trip(encode_utf8(plain), false);
    encode_utf8_valid_utf8(plain);
    encode_utf8_decode_utf8(plain);
    text::split_front(id, ':', secret);
}

/// A new agent can use its secret at once, for the scopes that it was granted.
pub proof fn a_new_agent_is_known(
    state: StateV,
    owner: HeadersV,
    body: AgentCreate,
    secret_token: Seq<char>,
    hash: Seq<char>,
    id_token: Seq<char>,
    now: u64,
    headers: HeadersV,
)
    requires
        agents::agents_create_outcome(
            state,
            owner,
            body,
            secret_token,
            Some(hash),
            id_token,
            now,
        ).1.status == 201,
        crypto::password_matches(agents::agt(secret_token), hash),
        cookies::basic(headers) == Some((agents::agt(id_token), agents::agt(secret_token))),
    ensures
        agents::authenticated(
            agents::agents_create_outcome(state, owner, body, secret_token, Some(hash), id_token, now).0,
            headers,
        ) matches Some(a) && a.id == agents::agt(id_token) && a.scopes == agents::granted_scopes(
            text::list_view(body.scopes@),
        ),
{
    let user = agents::agent_refusal(state, owner, body.name@, now)->Ok_0;
    let scopes = agents::granted_scopes(text::list_view(body.scopes@));
    let id = agents::agt(id_token);
    laws::stored_agent_is_found(
        state.store,
        id,
        user.id,
        text::trimmed(body.name@),
        hash,
        scopes,
        json::json_view(body.metadata),
        now,
    );
    sum_has_prefix("agt_"@, id_token);
    broadcast use vstd::seq_lib::group_filter_ensures;

    let p = |s: Seq<char>| agents::agent_scope(s);
    assert forall|i: int| 0 <= i < scopes.len() implies (#[trigger] scopes[i]).len() > 0 && !scopes[i].contains(
        ' ',
    ) by {
        assert(p(scopes[i]));
        agent_scopes_are_words(scopes[i]);
    }
    laws::stored_scopes_are_read_back(scopes);
}

/// A new agent can use its secret for as long as no one sets the status of an agent, whatever requests
/// come.
pub proof fn a_new_agent_stays_known(
    state: StateV,
    owner: HeadersV,
    body: AgentCreate,
    secret_token: Seq<char>,
    hash: Seq<char>,
    id_token: Seq<char>,
    now: u64,
    later: StateV,
    headers: HeadersV,
)
    requires
        agents::agents_create_outcome(
            state,
            owner,
            body,
            secret_token,
            Some(hash),
            id_token,
            now,
        ).1.status == 201,
        crypto::password_matches(agents::agt(secret_token), hash),
        follows_quietly(
            agents::agents_create_outcome(state, owner, body, secret_token, Some(hash), id_token, now).0,
            later,
        ),
        cookies::basic(headers) == Some((agents::agt(id_token), agents::agt(secret_token))),
    ensures
        agents::authenticated(later, headers) matches Some(a) && a.id == agents::agt(id_token),
{
    let made = agents::agents_create_outcome(state, owner, body, secret_token, Some(hash), id_token, now).0;
    a_new_agent_is_known(state, owner, body, secret_token, hash, id_token, now, headers);
    agents_stay_as_they_are(made, later, agents::agt(id_token));
}

/// The secret of an agent is told in the reply that creates the agent, and kept nowhere: what is stored,
/// and so all that later replies are made from, is the same whatever the secret is, given its hash.
pub proof fn secrets_are_told_once(
    state: StateV,
    headers: HeadersV,
    body: AgentCreate,
    secret_token: Seq<char>,
    other_token: Seq<char>,
    hash: Option<Seq<char>>,
    id_token: Seq<char>,
    now: u64,
)
    ensures
        agents::agents_create_outcome(state, headers, body, secret_token, hash, id_token, now).0
            == agents::agents_create_outcome(state, headers, body, other_token, hash, id_token, now).0,
        agents::agents_create_outcome(state, headers, body, secret_token, hash, id_token, now).1.status == 201
            ==> agents::agents_create_outcome(state, headers, body, secret_token, hash, id_token, now).1
            == http::plain(
            201,
            BodyV::Json(agents::agent_created(agents::agt(id_token), agents::agt(secret_token))),
        ),
{
}

/// What is stored for an agent is an Argon2id text, and not the secret.
pub proof fn secrets_are_stored_as_hashes(
    state: StateV,
    headers: HeadersV,
    body: AgentCreate,
    secret_token: Seq<char>,
    hash: Seq<char>,
    id_token: Seq<char>,
    now: u64,
)
    requires
        agents::agents_create_outcome(
            state,
            headers,
            body,
            secret_token,
            Some(hash),
            id_token,
            now,
        ).1.status == 201,
        crypto::argon2id_text(hash),
    ensures
        agents::agents_create_outcome(
            state,
            headers,
            body,
            secret_token,
            Some(hash),
            id_token,
            now,
        ).0.store.with_agent(agents::agt(id_token)) matches Some(a) && crypto::argon2id_text(a.secret_hash)
            && a.secret_hash != agents::agt(secret_token),
{
    let user = agents::agent_refusal(state, headers, body.name@, now)->Ok_0;
    laws::stored_agent_is_found(
        state.store,
        agents::agt(id_token),
        user.id,
        text::trimmed(body.name@),
        hash,
        agents::granted_scopes(text::list_view(body.scopes@)),
        json::json_view(body.metadata),
        now,
    );
    reveal_strlit("$argon2id$");
    reveal_strlit("agt_");
    assert(hash[0] == hash.take(crypto::ARGON2ID@.len() as int)[0]);
    assert(hash[0] == '$');
    assert(agents::agt(secret_token)[0] == 'a');
}

/// The list of a person's agents shows no hash: it is the same whatever the hashes are.
pub proof fn lists_show_no_hash(a: AgentV, hash: Seq<char>)
    ensures
        agents::agent_json(AgentV { secret_hash: hash, ..a }) == agents::agent_json(a),
{
}

/// A scope of an agent is a single word.
pub proof fn agent_scopes_are_words(s: Seq<char>)
    requires
        agents::agent_scope(s),
    ensures
        s.len() > 0,
        !s.contains(' '),
{
    reveal_strlit("miser:route");
    reveal_strlit("hive:delegate");
    reveal_strlit("relay:call");
    reveal_strlit("sentiel:ingest");
    reveal_strlit("aegis:egress");
    reveal_strlit("patroclus:authz");
}

} // verus!
