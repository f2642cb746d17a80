//! What holds of the store whatever is done to it.

use crate::crypto;
use crate::json;
use crate::rows::{
    AgentRowV, AgentV, AuthCodeV, ClientRowV, CodeRowV, ConsentV, RefreshTokenV, SessionV, UserV,
};
use crate::store;
use crate::store::StoreV;
use crate::tables;
use crate::tables::{ChangeV, Tables};
use crate::text;
use vstd::prelude::*;

verus! {

// ---------------------------------------------------------------------------------------------
// Every change
// ---------------------------------------------------------------------------------------------

/// Whatever is asked of the store, each key stays unique.
pub proof fn keys_stay_unique(s: StoreV, c: ChangeV)
    requires
        tables::wf(s.tables),
    ensures
        tables::wf(s.step(c).tables),
{
    if s.accepts(c) {
        tables::changes_keep_keys_unique(s.tables, c);
    }
}

/// The journal tells how the tables came about: replaying it on the tables as they were when it was
/// empty gives the tables as they are.
pub proof fn journal_tells_all(start: Tables, s: StoreV, c: ChangeV)
    requires
        s.tables == tables::replay(start, s.journal),
    ensures
        s.step(c).tables == tables::replay(start, s.step(c).journal),
{
    if s.accepts(c) {
        assert(s.journal.push(c).drop_last() =~= s.journal);
        assert(s.journal.push(c).last() == c);
    }
}

/// A store that cannot be reached stays as it is and finds nothing.
pub proof fn unreachable_store_stays(s: StoreV, c: ChangeV, key: Seq<char>, now: u64)
    requires
        !s.reachable,
    ensures
        s.step(c) == s,
        s.answer(c) == Err::<(), store::StoreError>(store::StoreError::Unreachable),
        s.with_id(key) is None,
        s.with_email(key) is None,
        s.with_github(key) is None,
        s.of_session(key, now) is None,
        s.with_client(key) is None,
        s.with_agent(key) is None,
        s.redeemable(key, now) is None,
        s.refreshable(key, now) is None,
{
}

/// An entry of the audit log changes no table.
pub proof fn audit_changes_no_table(
    s: StoreV,
    event: Seq<char>,
    user_id: Option<Seq<char>>,
    detail: json::JsonV,
    now: u64,
)
    ensures
        s.step(store::new_entry(event, user_id, detail, now)).tables == s.tables,
{
}

// ---------------------------------------------------------------------------------------------
// People
// ---------------------------------------------------------------------------------------------

/// A person that was stored is found by the identifier, by the email and by the GitHub account.
pub proof fn stored_user_is_found(
    s: StoreV,
    id: Seq<char>,
    email: Seq<char>,
    name: Seq<char>,
    password_hash: Option<Seq<char>>,
    github_id: Option<Seq<char>>,
    is_admin: bool,
    now: u64,
)
    requires
        s.accepts(store::new_user(id, email, name, password_hash, github_id, is_admin, now)),
    ensures
        ({
            let t = s.step(store::new_user(id, email, name, password_hash, github_id, is_admin, now));
            let u = UserV { id, email, name, password_hash, github_id, is_admin, disabled: false };
            &&& t.with_id(id) == Some(u)
            &&& t.with_email(email) == Some(u)
            &&& github_id is Some ==> t.with_github(github_id->0) == Some(u)
        }),
{
    let u = UserV { id, email, name, password_hash, github_id, is_admin, disabled: false };
    let users = s.tables.users;
    tables::first_none(users, tables::clashing(u));
    assert forall|j: int| 0 <= j < users.len() implies !tables::clash(#[trigger] users[j], u) by {
        assert(!tables::clashing(u)(users[j]));
    }
    tables::first_none(users, tables::user_id(id));
    tables::first_push(users, u, tables::user_id(id));
    tables::first_none(users, tables::user_email(email));
    tables::first_push(users, u, tables::user_email(email));
    if github_id is Some {
        tables::first_none(users, tables::user_github(github_id->0));
        tables::first_push(users, u, tables::user_github(github_id->0));
    }
}

/// A person with another password hash has it, and is otherwise who they were.
pub proof fn password_hash_is_set(s: StoreV, id: Seq<char>, hash: Option<Seq<char>>)
    requires
        s.reachable,
        s.with_id(id) is Some,
    ensures
        s.step(ChangeV::SetPasswordHash { user_id: id, hash }).with_id(id) == Some(
            UserV { password_hash: hash, ..s.with_id(id)->0 },
        ),
{
    tables::first_map(
        s.tables.users,
        |u: UserV| tables::with_hash(u, id, hash),
        tables::user_id(id),
    );
    tables::first_some(s.tables.users, tables::user_id(id));
}

/// Whether an optional text is one of an Argon2id hash, where there is one.
pub open spec fn hash_or_none(h: Option<Seq<char>>) -> bool {
    h matches Some(t) ==> crypto::argon2id_text(t)
}

/// Whether all passwords and secrets are stored as Argon2id hashes.
pub open spec fn hashed(t: Tables) -> bool {
    &&& forall|i: int| 0 <= i < t.users.len() ==> hash_or_none((#[trigger] t.users[i]).password_hash)
    &&& forall|i: int| 0 <= i < t.clients.len() ==> hash_or_none((#[trigger] t.clients[i]).secret_hash)
    &&& forall|i: int| 0 <= i < t.agents.len() ==> crypto::argon2id_text((#[trigger] t.agents[i]).secret_hash)
}

/// Whether a change stores passwords and secrets as Argon2id hashes alone.
pub open spec fn hashed_change(c: ChangeV) -> bool {
    match c {
        ChangeV::InsertUser { user, .. } => hash_or_none(user.password_hash),
        ChangeV::SetPasswordHash { hash, .. } => hash_or_none(hash),
        ChangeV::InsertClient { client } => hash_or_none(client.secret_hash),
        ChangeV::InsertAgent { agent } => crypto::argon2id_text(agent.secret_hash),
        _ => true,
    }
}

/// A change that stores Argon2id hashes alone leaves all passwords and secrets stored in that form.
pub proof fn hashes_stay_hashes(s: StoreV, c: ChangeV)
    requires
        hashed(s.tables),
        hashed_change(c),
    ensures
        hashed(s.step(c).tables),
{
}

/// Promoting a person once more changes nothing.
pub proof fn promoting_twice_is_promoting_once(t: Tables, email: Seq<char>)
    ensures
        tables::apply(tables::apply(t, ChangeV::PromoteAdmin { email }), ChangeV::PromoteAdmin { email })
            == tables::apply(t, ChangeV::PromoteAdmin { email }),
{
    let c = ChangeV::PromoteAdmin { email };
    let once = tables::apply(t, c);
    let twice = tables::apply(once, c);
    assert(twice.users =~= once.users);
    tables::first_map(t.users, |u: UserV| tables::promoted(u, email), tables::user_email(email));
    assert(twice.promoted =~= once.promoted);
}

/// A promotion makes the stored person an administrator, and is remembered.
pub proof fn promotion_is_remembered(s: StoreV, email: Seq<char>)
    requires
        s.with_email(email) is Some,
    ensures
        s.step(ChangeV::PromoteAdmin { email }).with_email(email) == Some(
            UserV { is_admin: true, ..s.with_email(email)->0 },
        ),
        s.step(ChangeV::PromoteAdmin { email }).tables.promoted == s.tables.promoted.insert(email),
{
    tables::first_map(s.tables.users, |u: UserV| tables::promoted(u, email), tables::user_email(email));
    tables::first_some(s.tables.users, tables::user_email(email));
}

/// Whoever was promoted is known as promoted, whatever is asked of the store.
pub proof fn promotions_stay_remembered(s: StoreV, c: ChangeV)
    ensures
        s.tables.promoted.subset_of(s.step(c).tables.promoted),
{
}

// ---------------------------------------------------------------------------------------------
// Sessions
// ---------------------------------------------------------------------------------------------

/// A session that was stored gives its person until it expires, unless the person is disabled.
pub proof fn stored_session_is_found(
    s: StoreV,
    sid: Seq<char>,
    user_id: Seq<char>,
    ttl: u64,
    ip: Seq<char>,
    now: u64,
    at: u64,
)
    requires
        tables::wf(s.tables),
        s.accepts(store::new_session(sid, user_id, ttl, ip, now)),
        at < now + ttl,
    ensures
        s.step(store::new_session(sid, user_id, ttl, ip, now)).of_session(sid, at) == match s.with_id(user_id) {
            Some(u) => if u.disabled {
                None
            } else {
                Some(u)
            },
            None => None,
        },
{
    let x = SessionV { id: sid, user_id, created_at: now, expires_at: store::later(now, ttl), ip };
    let p = store::live_session(sid, at);
    let users = s.tables.users;
    tables::first_none(s.tables.sessions, tables::session_id(sid));
    assert forall|j: int| 0 <= j < s.tables.sessions.len() implies !p(#[trigger] s.tables.sessions[j]) by {
        assert(!tables::session_id(sid)(s.tables.sessions[j]));
    }
    tables::first_none(s.tables.sessions, p);
    tables::first_push(s.tables.sessions, x, p);
    assert(p(x));
    enabled_or_none(users, user_id);
}

/// The enabled person with an identifier is the person with it, if enabled.
pub proof fn enabled_or_none(users: Seq<UserV>, id: Seq<char>)
    requires
        forall|i: int, j: int|
            0 <= i < j < users.len() ==> !tables::clash(#[trigger] users[i], #[trigger] users[j]),
    ensures
        tables::first(users, store::enabled_user(id)) == match tables::first(users, tables::user_id(id)) {
            Some(u) => if u.disabled {
                None
            } else {
                Some(u)
            },
            None => None,
        },
{
    let p = tables::user_id(id);
    let q = store::enabled_user(id);
    tables::first_none(users, p);
    tables::first_none(users, q);
    tables::first_some(users, p);
    match tables::first(users, p) {
        None => {
            assert forall|j: int| 0 <= j < users.len() implies !q(#[trigger] users[j]) by {
                assert(!p(users[j]));
            }
        },
        Some(u) => {
            let k = choose|k: int| 0 <= k < users.len() && users[k] == u;
            assert forall|j: int| 0 <= j < users.len() && j != k implies (#[trigger] users[j]).id != id by {
                if j < k {
                    assert(!tables::clash(users[j], users[k]));
                } else {
                    assert(!tables::clash(users[k], users[j]));
                }
            }
            if u.disabled {
                assert forall|j: int| 0 <= j < users.len() implies !q(#[trigger] users[j]) by {}
            } else {
                tables::first_is(users, q, k);
            }
        },
    }
}

/// A session gives no one who is disabled, and nothing once it has expired.
pub proof fn session_gives_enabled_people(s: StoreV, sid: Seq<char>, now: u64)
    ensures
        s.of_session(sid, now) matches Some(u) ==> !u.disabled,
        (forall|i: int|
            0 <= i < s.tables.sessions.len() ==> (#[trigger] s.tables.sessions[i]).id != sid
                || s.tables.sessions[i].expires_at <= now) ==> s.of_session(sid, now) is None,
{
    let p = store::live_session(sid, now);
    tables::first_none(s.tables.sessions, p);
    if s.answers_at(now) && tables::first(s.tables.sessions, p) is Some {
        let x = tables::first(s.tables.sessions, p)->0;
        tables::first_some(s.tables.sessions, p);
        tables::first_some(s.tables.users, store::enabled_user(x.user_id));
    }
}

/// A session that was ended gives no one, at no time.
pub proof fn ended_session_is_gone(s: StoreV, sid: Seq<char>, now: u64)
    requires
        s.reachable,
    ensures
        s.step(ChangeV::DeleteSession { id: sid }).of_session(sid, now) is None,
{
    let keep = |x: SessionV| x.id != sid;
    let left = s.tables.sessions.filter(keep);
    broadcast use vstd::seq_lib::group_filter_ensures;

    let p = store::live_session(sid, now);
    assert forall|j: int| 0 <= j < left.len() implies !p(#[trigger] left[j]) by {
        assert(keep(left[j]));
    }
    tables::first_none(left, p);
}

// ---------------------------------------------------------------------------------------------
// Clients and decisions
// ---------------------------------------------------------------------------------------------

/// A client that was stored is found.
pub proof fn stored_client_is_found(
    s: StoreV,
    id: Seq<char>,
    secret_hash: Option<Seq<char>>,
    name: Seq<char>,
    redirect_uris: Seq<char>,
    scopes: Seq<char>,
    registration_type: Seq<char>,
    now: u64,
)
    requires
        s.accepts(store::new_client(id, secret_hash, name, redirect_uris, scopes, registration_type, now)),
    ensures
        s.step(
            store::new_client(id, secret_hash, name, redirect_uris, scopes, registration_type, now),
        ).with_client(id) == Some(
            store::client_of(
                ClientRowV {
                    client_id: id,
                    secret_hash,
                    name,
                    redirect_uris,
                    scopes,
                    registration_type,
                    created_at: now,
                },
            ),
        ),
{
    let c = ClientRowV {
        client_id: id,
        secret_hash,
        name,
        redirect_uris,
        scopes,
        registration_type,
        created_at: now,
    };
    tables::first_push(s.tables.clients, c, tables::client_id(id));
}

/// A decision that was stored is the one that counts, whatever was decided before.
pub proof fn stored_decision_counts(
    s: StoreV,
    user_id: Seq<char>,
    client_id: Seq<char>,
    scope: Seq<char>,
    decision: Seq<char>,
    now: u64,
)
    requires
        s.accepts(store::new_consent(user_id, client_id, scope, decision, now)),
    ensures
        s.step(store::new_consent(user_id, client_id, scope, decision, now)).decision(
            user_id,
            client_id,
            scope,
        ) == Some(decision),
{
    let d = ConsentV { user_id, client_id, scope, decision, updated_at: now };
    let key = tables::consent_key(user_id, client_id, scope);
    tables::first_push(s.tables.consents, d, key);
    tables::first_map(s.tables.consents, |c: ConsentV| tables::decided(c, d), key);
    tables::first_some(s.tables.consents, key);
}

// ---------------------------------------------------------------------------------------------
// Authorization codes
// ---------------------------------------------------------------------------------------------

/// A code that was stored can be redeemed until it expires, and gives back what was stored.
pub proof fn stored_code_is_redeemable(s: StoreV, code: AuthCodeV, at: u64)
    requires
        s.accepts(ChangeV::InsertAuthCode { auth_code: code }),
        at < code.expires_at,
    ensures
        s.step(ChangeV::InsertAuthCode { auth_code: code }).redeemable(code.code, at) == Some(code),
{
    let row = CodeRowV { code, used: false };
    let p = store::live_code(code.code, at);
    tables::first_none(s.tables.codes, tables::code_text(code.code));
    assert forall|j: int| 0 <= j < s.tables.codes.len() implies !p(#[trigger] s.tables.codes[j]) by {
        assert(!tables::code_text(code.code)(s.tables.codes[j]));
    }
    tables::first_none(s.tables.codes, p);
    tables::first_push(s.tables.codes, row, p);
    assert(p(row));
}

/// What is redeemed is the code that was asked for, and it has not expired.
pub proof fn redeemed_code_is_live(s: StoreV, code: Seq<char>, now: u64)
    ensures
        s.redeemable(code, now) matches Some(c) ==> c.code == code && c.expires_at > now,
{
    tables::first_some(s.tables.codes, store::live_code(code, now));
}

/// Whether a code was redeemed.
pub open spec fn code_spent(t: Tables, code: Seq<char>) -> bool {
    &&& tables::first(t.codes, tables::code_text(code)) is Some
    &&& forall|i: int|
        0 <= i < t.codes.len() && (#[trigger] t.codes[i]).code.code == code ==> t.codes[i].used
}

/// A code is redeemed at most once: after it was redeemed it is spent, and a spent code cannot be
/// redeemed at any time.
pub proof fn codes_are_redeemed_once(s: StoreV, code: Seq<char>, now: u64, at: u64)
    ensures
        s.redeemable(code, now) is Some ==> code_spent(store::after_redeeming(s, code, now).tables, code),
        code_spent(s.tables, code) ==> s.redeemable(code, at) is None,
{
    let p = store::live_code(code, now);
    let k = tables::code_text(code);
    if s.redeemable(code, now) is Some {
        let f = |c: CodeRowV| tables::redeemed(c, code);
        let t = s.tables.codes.map_values(f);
        tables::first_some(s.tables.codes, p);
        let x = tables::first(s.tables.codes, p)->0;
        let i = choose|i: int| 0 <= i < s.tables.codes.len() && s.tables.codes[i] == x;
        tables::first_none(t, k);
        assert(t[i] == f(x));
        assert(k(t[i]));
        assert forall|j: int| 0 <= j < t.len() && (#[trigger] t[j]).code.code == code implies t[j].used by {
            assert(t[j] == f(s.tables.codes[j]));
        }
    }
    if code_spent(s.tables, code) {
        let q = store::live_code(code, at);
        tables::first_none(s.tables.codes, q);
        assert forall|j: int| 0 <= j < s.tables.codes.len() implies !q(#[trigger] s.tables.codes[j]) by {}
    }
}

/// A spent code stays spent, whatever is asked of the store.
pub proof fn spent_codes_stay_spent(s: StoreV, code: Seq<char>, c: ChangeV)
    requires
        code_spent(s.tables, code),
    ensures
        code_spent(s.step(c).tables, code),
{
    let k = tables::code_text(code);
    if s.accepts(c) {
        match c {
            ChangeV::InsertAuthCode { auth_code } => {
                let row = CodeRowV { code: auth_code, used: false };
                tables::first_push(s.tables.codes, row, k);
                tables::first_none(s.tables.codes, tables::code_text(auth_code.code));
                tables::first_some(s.tables.codes, k);
                let x = tables::first(s.tables.codes, k)->0;
                let i = choose|i: int| 0 <= i < s.tables.codes.len() && s.tables.codes[i] == x;
                assert(!tables::code_text(auth_code.code)(s.tables.codes[i]));
                assert(auth_code.code != code);
                let t = s.tables.codes.push(row);
                assert forall|j: int| 0 <= j < t.len() && (#[trigger] t[j]).code.code == code implies t[j].used by {
                    assert(j < s.tables.codes.len());
                    assert(t[j] == s.tables.codes[j]);
                }
            },
            ChangeV::MarkCodeUsed { code: other } => {
                let f = |x: CodeRowV| tables::redeemed(x, other);
                tables::first_map(s.tables.codes, f, k);
                let t = s.tables.codes.map_values(f);
                assert forall|j: int| 0 <= j < t.len() && (#[trigger] t[j]).code.code == code implies t[j].used by {
                    assert(t[j] == f(s.tables.codes[j]));
                }
            },
            _ => {},
        }
    }
}

// ---------------------------------------------------------------------------------------------
// Refresh tokens
// ---------------------------------------------------------------------------------------------

/// A refresh token that was stored can be replaced until it expires, and gives back whom and what it
/// was for.
pub proof fn stored_refresh_is_refreshable(
    s: StoreV,
    token: Seq<char>,
    user_id: Seq<char>,
    client_id: Seq<char>,
    scope: Seq<char>,
    ttl: u64,
    now: u64,
    at: u64,
)
    requires
        s.accepts(store::new_refresh(token, user_id, client_id, scope, ttl, now)),
        at < now + ttl,
    ensures
        s.step(store::new_refresh(token, user_id, client_id, scope, ttl, now)).refreshable(token, at) == Some(
            RefreshTokenV {
                token,
                user_id,
                client_id,
                scope,
                issued_at: now,
                expires_at: store::later(now, ttl),
                rotated_to: None,
            },
        ),
{
    let x = RefreshTokenV {
        token,
        user_id,
        client_id,
        scope,
        issued_at: now,
        expires_at: store::later(now, ttl),
        rotated_to: None,
    };
    let p = store::live_refresh(token, at);
    tables::first_none(s.tables.refreshes, tables::refresh_text(token));
    assert forall|j: int| 0 <= j < s.tables.refreshes.len() implies !p(#[trigger] s.tables.refreshes[j]) by {
        assert(!tables::refresh_text(token)(s.tables.refreshes[j]));
    }
    tables::first_none(s.tables.refreshes, p);
    tables::first_push(s.tables.refreshes, x, p);
    assert(p(x));
}

/// Whether a refresh token was replaced.
pub open spec fn refresh_spent(t: Tables, token: Seq<char>) -> bool {
    &&& tables::first(t.refreshes, tables::refresh_text(token)) is Some
    &&& forall|i: int|
        0 <= i < t.refreshes.len() && (#[trigger] t.refreshes[i]).token == token
            ==> t.refreshes[i].rotated_to is Some
}

/// A refresh token is replaced at most once: after it was replaced it is spent, and a spent one cannot
/// be replaced at any time.
pub proof fn refresh_tokens_work_once(s: StoreV, token: Seq<char>, replacement: Seq<char>, now: u64, at: u64)
    ensures
        s.refreshable(token, now) is Some ==> refresh_spent(
            store::after_rotating(s, token, replacement, now).tables,
            token,
        ),
        refresh_spent(s.tables, token) ==> s.refreshable(token, at) is None,
{
    let p = store::live_refresh(token, now);
    let k = tables::refresh_text(token);
    if s.refreshable(token, now) is Some {
        let f = |x: RefreshTokenV| tables::rotated(x, token, replacement);
        let t = s.tables.refreshes.map_values(f);
        tables::first_some(s.tables.refreshes, p);
        let x = tables::first(s.tables.refreshes, p)->0;
        let i = choose|i: int| 0 <= i < s.tables.refreshes.len() && s.tables.refreshes[i] == x;
        tables::first_none(t, k);
        assert(t[i] == f(x));
        assert(k(t[i]));
        assert forall|j: int| 0 <= j < t.len() && (#[trigger] t[j]).token == token implies t[j].rotated_to is Some by {
            assert(t[j] == f(s.tables.refreshes[j]));
        }
    }
    if refresh_spent(s.tables, token) {
        let q = store::live_refresh(token, at);
        tables::first_none(s.tables.refreshes, q);
        assert forall|j: int| 0 <= j < s.tables.refreshes.len() implies !q(#[trigger] s.tables.refreshes[j]) by {}
    }
}

/// A spent refresh token stays spent, whatever is asked of the store.
pub proof fn spent_refresh_tokens_stay_spent(s: StoreV, token: Seq<char>, c: ChangeV)
    requires
        refresh_spent(s.tables, token),
    ensures
        refresh_spent(s.step(c).tables, token),
{
    let k = tables::refresh_text(token);
    if s.accepts(c) {
        match c {
            ChangeV::InsertRefresh { refresh } => {
                tables::first_push(s.tables.refreshes, refresh, k);
                tables::first_none(s.tables.refreshes, tables::refresh_text(refresh.token));
                tables::first_some(s.tables.refreshes, k);
                let x = tables::first(s.tables.refreshes, k)->0;
                let i = choose|i: int| 0 <= i < s.tables.refreshes.len() && s.tables.refreshes[i] == x;
                assert(!tables::refresh_text(refresh.token)(s.tables.refreshes[i]));
                let t = s.tables.refreshes.push(refresh);
                assert forall|j: int|
                    0 <= j < t.len() && (#[trigger] t[j]).token == token implies t[j].rotated_to is Some by {
                    assert(j < s.tables.refreshes.len());
                    assert(t[j] == s.tables.refreshes[j]);
                }
            },
            ChangeV::RotateRefresh { token: other, replacement } => {
                let f = |x: RefreshTokenV| tables::rotated(x, other, replacement);
                tables::first_map(s.tables.refreshes, f, k);
                let t = s.tables.refreshes.map_values(f);
                assert forall|j: int|
                    0 <= j < t.len() && (#[trigger] t[j]).token == token implies t[j].rotated_to is Some by {
                    assert(t[j] == f(s.tables.refreshes[j]));
                }
            },
            _ => {},
        }
    }
}

// ---------------------------------------------------------------------------------------------
// Agents
// ---------------------------------------------------------------------------------------------

/// An agent that was stored is found, active.
pub proof fn stored_agent_is_found(
    s: StoreV,
    id: Seq<char>,
    owner: Seq<char>,
    name: Seq<char>,
    secret_hash: Seq<char>,
    scopes: Seq<Seq<char>>,
    metadata: json::JsonV,
    now: u64,
)
    requires
        s.accepts(store::new_agent(id, owner, name, secret_hash, scopes, metadata, now)),
    ensures
        s.step(store::new_agent(id, owner, name, secret_hash, scopes, metadata, now)).with_agent(id) == Some(
            AgentV {
                id,
                owner_user_id: owner,
                name,
                secret_hash,
                scopes: store::words(text::join(scopes, " "@)),
                status: "active"@,
                created_at: now,
            },
        ),
{
    let a = AgentRowV {
        id,
        owner_user_id: owner,
        name,
        secret_hash,
        scopes: text::join(scopes, " "@),
        status: "active"@,
        created_at: now,
        metadata: json::json_text(metadata),
        last_seen: None,
    };
    tables::first_push(s.tables.agents, a, tables::agent_id(id));
}

/// Scopes that are single words are read back as they were stored.
pub proof fn stored_scopes_are_read_back(scopes: Seq<Seq<char>>)
    requires
        forall|i: int|
            0 <= i < scopes.len() ==> (#[trigger] scopes[i]).len() > 0 && !scopes[i].contains(' '),
    ensures
        store::words(text::join(scopes, " "@)) == scopes,
{
    reveal_strlit(" ");
    assert(" "@ =~= seq![' ']);
    if scopes.len() == 0 {
        reveal_with_fuel(Seq::filter, 2);
        text::split_whole(Seq::empty(), ' ');
        let v = text::split(text::join(scopes, " "@), ' ');
        assert(v =~= seq![Seq::<char>::empty()]);
        assert(v.drop_last() =~= Seq::empty());
        assert(v.last().len() == 0);
        assert(store::words(text::join(scopes, " "@)) =~= scopes);
    } else {
        text::split_join(scopes, ' ');
        all_kept(scopes);
    }
}

/// Texts that are not empty are all kept.
pub proof fn all_kept(v: Seq<Seq<char>>)
    requires
        forall|i: int| 0 <= i < v.len() ==> (#[trigger] v[i]).len() > 0,
    ensures
        v.filter(|w: Seq<char>| w.len() > 0) == v,
    decreases v.len(),
{
    reveal(Seq::filter);
    if v.len() > 0 {
        let d = v.drop_last();
        assert forall|i: int| 0 <= i < d.len() implies (#[trigger] d[i]).len() > 0 by {
            assert(d[i] == v[i]);
        }
        all_kept(d);
        assert(v.last() == v[v.len() - 1]);
        assert(d.push(v.last()) =~= v);
    }
}

/// Only the owner changes the status of an agent: for anyone else all agents stay as they are.
pub proof fn only_the_owner_sets_the_status(s: StoreV, id: Seq<char>, owner: Seq<char>, status: Seq<char>)
    requires
        tables::first(s.tables.agents, store::owned_agent(id, owner)) is None,
    ensures
        s.step(ChangeV::SetAgentStatus { id, owner, status }).tables == s.tables,
{
    let c = ChangeV::SetAgentStatus { id, owner, status };
    tables::first_none(s.tables.agents, store::owned_agent(id, owner));
    assert forall|j: int| 0 <= j < s.tables.agents.len() implies tables::with_status(
        #[trigger] s.tables.agents[j],
        id,
        owner,
        status,
    ) == s.tables.agents[j] by {
        assert(!store::owned_agent(id, owner)(s.tables.agents[j]));
    }
    assert(tables::apply(s.tables, c).agents =~= s.tables.agents);
}

/// The status that the owner sets is the status of the agent from then on; nothing else of it changes,
/// and no other agent does.
pub proof fn the_owner_sets_the_status(
    s: StoreV,
    id: Seq<char>,
    owner: Seq<char>,
    status: Seq<char>,
    other: Seq<char>,
)
    requires
        s.reachable,
        s.with_agent(id) is Some,
        s.with_agent(id)->0.owner_user_id == owner,
        other != id,
    ensures
        s.step(ChangeV::SetAgentStatus { id, owner, status }).with_agent(id) == Some(
            AgentV { status, ..s.with_agent(id)->0 },
        ),
        s.step(ChangeV::SetAgentStatus { id, owner, status }).with_agent(other) == s.with_agent(other),
{
    let f = |a: AgentRowV| tables::with_status(a, id, owner, status);
    tables::first_map(s.tables.agents, f, tables::agent_id(id));
    tables::first_map(s.tables.agents, f, tables::agent_id(other));
    tables::first_some(s.tables.agents, tables::agent_id(id));
    tables::first_some(s.tables.agents, tables::agent_id(other));
}

/// An agent stays as it is, whatever is asked of the store, but where its owner sets its status.
pub proof fn agents_stay(s: StoreV, id: Seq<char>, c: ChangeV)
    requires
        s.with_agent(id) is Some,
        c matches ChangeV::SetAgentStatus { id: named, owner, .. } ==> named != id || owner
            != s.with_agent(id)->0.owner_user_id,
    ensures
        s.step(c).with_agent(id) == s.with_agent(id),
{
    let k = tables::agent_id(id);
    tables::first_some(s.tables.agents, k);
    match c {
        ChangeV::InsertAgent { agent } => {
            tables::first_push(s.tables.agents, agent, k);
        },
        ChangeV::SetAgentStatus { id: named, owner, status } => {
            tables::first_map(s.tables.agents, |a: AgentRowV| tables::with_status(a, named, owner, status), k);
        },
        ChangeV::TouchAgent { id: named, at } => {
            tables::first_map(s.tables.agents, |a: AgentRowV| tables::seen(a, named, at), k);
        },
        _ => {},
    }
}

/// The agents of an owner are listed oldest first, and only those of the owner.
pub proof fn agents_are_listed_by_age(rows: Seq<AgentRowV>, owner: Seq<char>)
    ensures
        forall|i: int, j: int|
            0 <= i < j < store::owned_by_age(rows, owner).len() ==> (#[trigger] store::owned_by_age(
                rows,
                owner,
            )[i]).created_at <= (#[trigger] store::owned_by_age(rows, owner)[j]).created_at,
        forall|i: int|
            0 <= i < store::owned_by_age(rows, owner).len() ==> (#[trigger] store::owned_by_age(
                rows,
                owner,
            )[i]).owner_user_id == owner,
    decreases rows.len(),
{
    if rows.len() > 0 {
        agents_are_listed_by_age(rows.drop_last(), owner);
        let before = store::owned_by_age(rows.drop_last(), owner);
        if rows.last().owner_user_id == owner {
            inserted_by_age(before, store::agent_of(rows.last()), owner);
        }
    }
}

/// Every agent of an owner is listed, as often as it is stored.
pub proof fn all_agents_are_listed(rows: Seq<AgentRowV>, owner: Seq<char>)
    ensures
        store::owned_by_age(rows, owner).to_multiset() == rows.filter(
            |a: AgentRowV| a.owner_user_id == owner,
        ).map_values(|a: AgentRowV| store::agent_of(a)).to_multiset(),
    decreases rows.len(),
{
    reveal(Seq::filter);
    broadcast use vstd::seq_lib::group_to_multiset_ensures;

    let p = |a: AgentRowV| a.owner_user_id == owner;
    let f = |a: AgentRowV| store::agent_of(a);
    if rows.len() == 0 {
        assert(store::owned_by_age(rows, owner) =~= rows.filter(p).map_values(f));
    } else {
        let d = rows.drop_last();
        all_agents_are_listed(d, owner);
        if p(rows.last()) {
            let before = store::owned_by_age(d, owner);
            let a = store::agent_of(rows.last());
            inserted_is_there(before, a);
            assert(rows.filter(p).map_values(f) =~= d.filter(p).map_values(f).push(a));
        }
    }
}

proof fn inserted_is_there(s: Seq<AgentV>, a: AgentV)
    ensures
        store::insert_by_age(s, a).to_multiset() == s.to_multiset().insert(a),
    decreases s.len(),
{
    broadcast use vstd::seq_lib::group_to_multiset_ensures;

    if s.len() == 0 {
        assert(store::insert_by_age(s, a) =~= s.push(a));
    } else if s.last().created_at > a.created_at {
        inserted_is_there(s.drop_last(), a);
        let t = store::insert_by_age(s.drop_last(), a);
        assert(s.drop_last().push(s.last()) =~= s);
        assert(t.push(s.last()).to_multiset() == t.to_multiset().insert(s.last()));
        assert(s.to_multiset() == s.drop_last().to_multiset().insert(s.last()));
        assert(s.drop_last().to_multiset().insert(a).insert(s.last()) =~= s.drop_last().to_multiset().insert(
            s.last(),
        ).insert(a));
    }
}

/// Whether no identifier is listed twice.
pub open spec fn distinct_agents(s: Seq<AgentV>) -> bool {
    forall|i: int, j: int| 0 <= i < j < s.len() ==> (#[trigger] s[i]).id != (#[trigger] s[j]).id
}

proof fn inserted_once(s: Seq<AgentV>, a: AgentV)
    requires
        distinct_agents(s),
        forall|i: int| 0 <= i < s.len() ==> (#[trigger] s[i]).id != a.id,
    ensures
        distinct_agents(store::insert_by_age(s, a)),
        forall|i: int|
            0 <= i < store::insert_by_age(s, a).len() ==> {
                let x = #[trigger] store::insert_by_age(s, a)[i];
                x == a || s.contains(x)
            },
    decreases s.len(),
{
    if s.len() > 0 {
        let r = store::insert_by_age(s, a);
        let d = s.drop_last();
        let last = s.last();
        assert(s[s.len() - 1] == last);
        assert(s.contains(last));
        assert forall|x: AgentV| d.contains(x) implies s.contains(x) && x.id != last.id by {
            let k = choose|k: int| 0 <= k < d.len() && d[k] == x;
            assert(s[k] == x);
        }
        if last.created_at > a.created_at {
            assert forall|i: int, j: int| 0 <= i < j < d.len() implies (#[trigger] d[i]).id != (#[trigger] d[j]).id by {
                assert(d[i] == s[i] && d[j] == s[j]);
            }
            assert forall|i: int| 0 <= i < d.len() implies (#[trigger] d[i]).id != a.id by {
                assert(d[i] == s[i]);
            }
            inserted_once(d, a);
            let t = store::insert_by_age(d, a);
            assert(r == t.push(last));
            assert forall|i: int| 0 <= i < t.len() implies (#[trigger] t[i]).id != last.id && (t[i] == a || s.contains(
                t[i],
            )) by {
                assert(t[i] == a || d.contains(t[i]));
            }
        } else {
            assert forall|i: int| 0 <= i < r.len() implies (#[trigger] r[i] == a || s.contains(r[i])) by {
                if i < s.len() {
                    assert(r[i] == s[i]);
                }
            }
        }
    }
}

/// Whether an agent is that of this row.
spec fn of_row(rows: Seq<AgentRowV>, a: AgentV, k: int) -> bool {
    0 <= k < rows.len() && store::agent_of(rows[k]) == a
}

/// Whether an agent is that of some row.
spec fn from_rows(rows: Seq<AgentRowV>, a: AgentV) -> bool {
    exists|k: int| of_row(rows, a, k)
}

proof fn listed_from_rows(rows: Seq<AgentRowV>, owner: Seq<char>)
    requires
        forall|i: int, j: int| 0 <= i < j < rows.len() ==> (#[trigger] rows[i]).id != (#[trigger] rows[j]).id,
    ensures
        distinct_agents(store::owned_by_age(rows, owner)),
        forall|i: int|
            0 <= i < store::owned_by_age(rows, owner).len() ==> from_rows(
                rows,
                #[trigger] store::owned_by_age(rows, owner)[i],
            ),
    decreases rows.len(),
{
    if rows.len() > 0 {
        let d = rows.drop_last();
        let v = store::owned_by_age(rows, owner);
        let before = store::owned_by_age(d, owner);
        let a = store::agent_of(rows.last());
        assert(rows.last() == rows[rows.len() - 1]);
        assert forall|i: int, j: int| 0 <= i < j < d.len() implies (#[trigger] d[i]).id != (#[trigger] d[j]).id by {
            assert(d[i] == rows[i] && d[j] == rows[j]);
        }
        listed_from_rows(d, owner);
        assert forall|i: int| 0 <= i < before.len() implies (#[trigger] before[i]).id != a.id && from_rows(
            rows,
            before[i],
        ) by {
            let k = choose|k: int| of_row(d, before[i], k);
            assert(d[k] == rows[k]);
            assert(of_row(rows, before[i], k));
        }
        if rows.last().owner_user_id == owner {
            inserted_once(before, a);
            assert(of_row(rows, a, rows.len() - 1));
            assert forall|i: int| 0 <= i < v.len() implies from_rows(rows, #[trigger] v[i]) by {
                if v[i] != a {
                    let j = choose|j: int| 0 <= j < before.len() && before[j] == v[i];
                    assert(from_rows(rows, before[j]));
                }
            }
        }
    }
}

/// Each listed agent is the one that is found by its identifier, and none is listed twice.
pub proof fn listed_agents_are_found(s: StoreV, owner: Seq<char>)
    requires
        s.reachable,
        tables::wf(s.tables),
    ensures
        distinct_agents(store::owned_by_age(s.tables.agents, owner)),
        forall|i: int|
            0 <= i < store::owned_by_age(s.tables.agents, owner).len() ==> {
                let a = #[trigger] store::owned_by_age(s.tables.agents, owner)[i];
                s.with_agent(a.id) == Some(a)
            },
{
    let rows = s.tables.agents;
    let v = store::owned_by_age(rows, owner);
    listed_from_rows(rows, owner);
    assert forall|i: int| 0 <= i < v.len() implies s.with_agent((#[trigger] v[i]).id) == Some(v[i]) by {
        assert(from_rows(rows, v[i]));
        let k = choose|k: int| of_row(rows, v[i], k);
        let p = tables::agent_id(v[i].id);
        assert(p(rows[k]));
        assert forall|j: int| 0 <= j < k implies !p(#[trigger] rows[j]) by {
            assert(rows[j].id != rows[k].id);
        }
        tables::first_is(rows, p, k);
    }
}

/// Whoever owns no agent is given an empty list.
pub proof fn no_agents_no_list(rows: Seq<AgentRowV>, owner: Seq<char>)
    requires
        forall|i: int| 0 <= i < rows.len() ==> (#[trigger] rows[i]).owner_user_id != owner,
    ensures
        store::owned_by_age(rows, owner).len() == 0,
    decreases rows.len(),
{
    if rows.len() > 0 {
        let d = rows.drop_last();
        assert forall|i: int| 0 <= i < d.len() implies (#[trigger] d[i]).owner_user_id != owner by {
            assert(d[i] == rows[i]);
        }
        no_agents_no_list(d, owner);
        assert(rows.last() == rows[rows.len() - 1]);
    }
}

/// One more agent in the list is one more.
pub proof fn inserted_adds_one(s: Seq<AgentV>, a: AgentV)
    ensures
        store::insert_by_age(s, a).len() == s.len() + 1,
    decreases s.len(),
{
    if s.len() > 0 {
        inserted_adds_one(s.drop_last(), a);
    }
}

/// Whether no agent is younger than a point in time.
spec fn all_by(s: Seq<AgentV>, t: u64) -> bool {
    forall|i: int| 0 <= i < s.len() ==> (#[trigger] s[i]).created_at <= t
}

proof fn inserted_by_age(s: Seq<AgentV>, a: AgentV, owner: Seq<char>)
    requires
        forall|i: int, j: int|
            0 <= i < j < s.len() ==> (#[trigger] s[i]).created_at <= (#[trigger] s[j]).created_at,
        forall|i: int| 0 <= i < s.len() ==> (#[trigger] s[i]).owner_user_id == owner,
        a.owner_user_id == owner,
    ensures
        store::insert_by_age(s, a).len() == s.len() + 1,
        forall|i: int, j: int|
            0 <= i < j < store::insert_by_age(s, a).len() ==> (#[trigger] store::insert_by_age(
                s,
                a,
            )[i]).created_at <= (#[trigger] store::insert_by_age(s, a)[j]).created_at,
        forall|i: int|
            0 <= i < store::insert_by_age(s, a).len() ==> (#[trigger] store::insert_by_age(
                s,
                a,
            )[i]).owner_user_id == owner,
        forall|t: u64|
            all_by(s, t) && a.created_at <= t ==> #[trigger] all_by(store::insert_by_age(s, a), t),
    decreases s.len(),
{
    if s.len() > 0 {
        let r = store::insert_by_age(s, a);
        let d = s.drop_last();
        assert(s.last() == s[s.len() - 1]);
        if s.last().created_at > a.created_at {
            assert forall|i: int, j: int| 0 <= i < j < d.len() implies (#[trigger] d[i]).created_at <= (
            #[trigger] d[j]).created_at by {
                assert(d[i] == s[i] && d[j] == s[j]);
            }
            assert forall|i: int| 0 <= i < d.len() implies (#[trigger] d[i]).owner_user_id == owner
                && d[i].created_at <= s.last().created_at by {
                assert(d[i] == s[i]);
                assert(s[i].created_at <= s[s.len() - 1].created_at);
            }
            inserted_by_age(d, a, owner);
            let q = store::insert_by_age(d, a);
            assert(all_by(d, s.last().created_at));
            assert(all_by(q, s.last().created_at));
            assert(r == q.push(s.last()));
            assert forall|t: u64| all_by(s, t) && a.created_at <= t implies #[trigger] all_by(r, t) by {
                assert forall|i: int| 0 <= i < d.len() implies (#[trigger] d[i]).created_at <= t by {
                    assert(d[i] == s[i]);
                }
                assert(all_by(d, t));
                assert(all_by(q, t));
                assert(s[s.len() - 1].created_at <= t);
            }
        } else {
            assert(r == s.push(a));
            assert forall|i: int| 0 <= i < s.len() implies (#[trigger] s[i]).created_at <= a.created_at by {
                if i < s.len() - 1 {
                    assert(s[i].created_at <= s[s.len() - 1].created_at);
                }
            }
        }
    }
}

} // verus!
