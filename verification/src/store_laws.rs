//! What the queries find among the rows, when changes are made, and what they leave alone.

use crate::rows::{AgentRowV, ClientRowV, CodeRowV, ConsentV, RefreshTokenV, SessionV, UserV};
use crate::store;
use crate::store::{StoreError, StoreV};
use crate::tables;
use crate::tables::{ChangeV, Tables};
use crate::text;
use vstd::prelude::*;

verus! {

/// The latest time that is stored, in seconds.
pub open spec fn last_time() -> u64 {
    0x7fff_ffff_ffff_ffff
}

// ---------------------------------------------------------------------------------------------
// What is found
// ---------------------------------------------------------------------------------------------

/// A person is found by an identifier, an email or a GitHub account only if it is theirs, and always
/// if it is someone's.
pub proof fn people_are_found_by_their_keys(s: StoreV, key: Seq<char>)
    ensures
        s.with_id(key) matches Some(u) ==> s.reachable && s.tables.users.contains(u) && u.id == key,
        s.with_email(key) matches Some(u) ==> s.reachable && s.tables.users.contains(u) && u.email == key,
        s.with_github(key) matches Some(u) ==> s.reachable && s.tables.users.contains(u) && u.github_id == Some(key),
        s.reachable ==> forall|i: int|
            0 <= i < s.tables.users.len() ==> {
                let u = #[trigger] s.tables.users[i];
                &&& u.id == key ==> s.with_id(key) is Some
                &&& u.email == key ==> s.with_email(key) is Some
                &&& u.github_id == Some(key) ==> s.with_github(key) is Some
            },
{
    let users = s.tables.users;
    tables::first_some(users, tables::user_id(key));
    tables::first_some(users, tables::user_email(key));
    tables::first_some(users, tables::user_github(key));
    tables::first_none(users, tables::user_id(key));
    tables::first_none(users, tables::user_email(key));
    tables::first_none(users, tables::user_github(key));
    if s.reachable {
        assert forall|i: int| 0 <= i < users.len() implies {
            let u = #[trigger] users[i];
            &&& u.id == key ==> s.with_id(key) is Some
            &&& u.email == key ==> s.with_email(key) is Some
            &&& u.github_id == Some(key) ==> s.with_github(key) is Some
        } by {
            let u = users[i];
            if s.with_id(key) is None {
                assert(!tables::user_id(key)(users[i]));
            }
            if s.with_email(key) is None {
                assert(!tables::user_email(key)(users[i]));
            }
            if s.with_github(key) is None {
                assert(!tables::user_github(key)(users[i]));
            }
        }
    }
}

/// A session gives a person only if it is stored, has not expired, and is that of the person, who is not
/// disabled.
pub proof fn what_a_session_means(s: StoreV, sid: Seq<char>, now: u64)
    ensures
        s.of_session(sid, now) matches Some(u) ==> {
            &&& s.reachable
            &&& s.tables.users.contains(u)
            &&& !u.disabled
            &&& exists|i: int|
                0 <= i < s.tables.sessions.len() && (#[trigger] s.tables.sessions[i]).id == sid
                    && s.tables.sessions[i].expires_at > now && s.tables.sessions[i].user_id == u.id
        },
{
    let p = store::live_session(sid, now);
    if s.of_session(sid, now) is Some {
        tables::first_some(s.tables.sessions, p);
        let x = tables::first(s.tables.sessions, p)->0;
        let i = choose|i: int| 0 <= i < s.tables.sessions.len() && s.tables.sessions[i] == x;
        assert(s.tables.sessions[i].id == sid);
        tables::first_some(s.tables.users, store::enabled_user(x.user_id));
    }
}

/// A stored session that has not expired gives its person, unless disabled.
pub proof fn live_sessions_count(s: StoreV, i: int, now: u64)
    requires
        s.reachable,
        tables::wf(s.tables),
        now <= last_time(),
        0 <= i < s.tables.sessions.len(),
        s.tables.sessions[i].expires_at > now,
    ensures
        s.of_session(s.tables.sessions[i].id, now) == match s.with_id(s.tables.sessions[i].user_id) {
            Some(u) => if u.disabled {
                None
            } else {
                Some(u)
            },
            None => None,
        },
{
    let x = s.tables.sessions[i];
    let p = store::live_session(x.id, now);
    assert forall|j: int| 0 <= j < i implies !p(#[trigger] s.tables.sessions[j]) by {
        assert(s.tables.sessions[j].id != s.tables.sessions[i].id);
    }
    tables::first_is(s.tables.sessions, p, i);
    crate::laws::enabled_or_none(s.tables.users, x.user_id);
}

/// A client is found by its identifier alone, with what its row holds; its redirect URIs are the lines of
/// the row, without white space around them, where something is left.
pub proof fn clients_are_found_by_identifier(s: StoreV, id: Seq<char>)
    ensures
        s.with_client(id) matches Some(c) ==> s.reachable && c.client_id == id && exists|i: int|
            0 <= i < s.tables.clients.len() && client_row_is(#[trigger] s.tables.clients[i], c),
        s.reachable && s.with_client(id) is None ==> forall|i: int|
            0 <= i < s.tables.clients.len() ==> (#[trigger] s.tables.clients[i]).client_id != id,
{
    let p = tables::client_id(id);
    tables::first_some(s.tables.clients, p);
    tables::first_none(s.tables.clients, p);
    if s.with_client(id) is Some {
        let row = tables::first(s.tables.clients, p)->0;
        let i = choose|i: int| 0 <= i < s.tables.clients.len() && s.tables.clients[i] == row;
        let c = s.with_client(id)->0;
        assert forall|u: Seq<char>| #[trigger] c.redirect_uris.contains(u) <==> u.len() > 0 && is_line(
            row.redirect_uris,
            u,
        ) by {
            lines_are_read(row.redirect_uris, u);
        }
        assert(client_row_is(s.tables.clients[i], c));
    } else if s.reachable {
        assert forall|i: int| 0 <= i < s.tables.clients.len() implies (#[trigger] s.tables.clients[i]).client_id
            != id by {
            assert(!p(s.tables.clients[i]));
        }
    }
}

/// Whether a text is what is left of a line without the white space around it.
pub open spec fn is_line(rows: Seq<char>, u: Seq<char>) -> bool {
    exists|k: int| 0 <= k < text::split(rows, '\n').len() && text::trimmed(#[trigger] text::split(rows, '\n')[k]) == u
}

/// Whether a client holds what a row holds.
pub open spec fn client_row_is(row: ClientRowV, c: crate::rows::ClientV) -> bool {
    &&& row.client_id == c.client_id
    &&& row.secret_hash == c.secret_hash
    &&& row.name == c.name
    &&& row.scopes == c.scopes
    &&& row.registration_type == c.registration_type
    &&& forall|u: Seq<char>| #[trigger]
        c.redirect_uris.contains(u) <==> u.len() > 0 && is_line(row.redirect_uris, u)
}

proof fn lines_are_read(rows: Seq<char>, u: Seq<char>)
    ensures
        store::trimmed_lines(rows).contains(u) <==> u.len() > 0 && is_line(rows, u),
{
    let pieces = text::split(rows, '\n');
    let lines = pieces.map_values(|l: Seq<char>| text::trimmed(l));
    let keep = |l: Seq<char>| l.len() > 0;
    let kept = lines.filter(keep);
    tables::kept(lines, keep);
    assert(kept == store::trimmed_lines(rows));
    if kept.contains(u) {
        let k = choose|k: int| 0 <= k < lines.len() && lines[k] == u;
        assert(text::trimmed(pieces[k]) == u);
    }
    if u.len() > 0 && is_line(rows, u) {
        let k = choose|k: int| 0 <= k < pieces.len() && text::trimmed(#[trigger] pieces[k]) == u;
        assert(lines[k] == u);
        assert(lines.contains(u) && keep(u));
    }
}

/// A decision is found only for exactly the person, the client and the scope that it was made for, and
/// always for these.
pub proof fn decisions_are_found_exactly(s: StoreV, user_id: Seq<char>, client_id: Seq<char>, scope: Seq<char>)
    ensures
        s.decision(user_id, client_id, scope) matches Some(d) ==> s.reachable && exists|i: int|
            0 <= i < s.tables.consents.len() && (#[trigger] s.tables.consents[i]).user_id == user_id
                && s.tables.consents[i].client_id == client_id && s.tables.consents[i].scope == scope
                && s.tables.consents[i].decision == d,
        s.reachable && s.decision(user_id, client_id, scope) is None ==> forall|i: int|
            0 <= i < s.tables.consents.len() ==> {
                let c = #[trigger] s.tables.consents[i];
                c.user_id != user_id || c.client_id != client_id || c.scope != scope
            },
{
    let p = tables::consent_key(user_id, client_id, scope);
    tables::first_some(s.tables.consents, p);
    tables::first_none(s.tables.consents, p);
    if s.decision(user_id, client_id, scope) is Some {
        let x = tables::first(s.tables.consents, p)->0;
        let i = choose|i: int| 0 <= i < s.tables.consents.len() && s.tables.consents[i] == x;
        assert(s.tables.consents[i].decision == s.decision(user_id, client_id, scope)->0);
    } else if s.reachable {
        assert forall|i: int| 0 <= i < s.tables.consents.len() implies {
            let c = #[trigger] s.tables.consents[i];
            c.user_id != user_id || c.client_id != client_id || c.scope != scope
        } by {
            assert(!p(s.tables.consents[i]));
        }
    }
}

/// A code can be redeemed only if it is stored, unused and not expired, and always then.
pub proof fn what_redeemable_means(s: StoreV, code: Seq<char>, now: u64)
    ensures
        s.redeemable(code, now) matches Some(c) ==> {
            &&& s.reachable
            &&& c.code == code
            &&& c.expires_at > now
            &&& s.tables.codes.contains(CodeRowV { code: c, used: false })
        },
        s.reachable && now <= last_time() && s.redeemable(code, now) is None ==> forall|i: int|
            0 <= i < s.tables.codes.len() ==> {
                let r = #[trigger] s.tables.codes[i];
                r.code.code != code || r.used || r.code.expires_at <= now
            },
{
    let p = store::live_code(code, now);
    tables::first_some(s.tables.codes, p);
    tables::first_none(s.tables.codes, p);
    if s.redeemable(code, now) is Some {
        let r = tables::first(s.tables.codes, p)->0;
        assert(r == CodeRowV { code: r.code, used: false });
    } else if s.reachable && now <= last_time() {
        assert forall|i: int| 0 <= i < s.tables.codes.len() implies {
            let r = #[trigger] s.tables.codes[i];
            r.code.code != code || r.used || r.code.expires_at <= now
        } by {
            assert(!p(s.tables.codes[i]));
        }
    }
}

/// A refresh token can be used only if it is stored, not replaced and not expired, and always then.
pub proof fn what_refreshable_means(s: StoreV, token: Seq<char>, now: u64)
    ensures
        s.refreshable(token, now) matches Some(t) ==> {
            &&& s.reachable
            &&& t.token == token
            &&& t.expires_at > now
            &&& t.rotated_to is None
            &&& s.tables.refreshes.contains(t)
        },
        s.reachable && now <= last_time() && s.refreshable(token, now) is None ==> forall|i: int|
            0 <= i < s.tables.refreshes.len() ==> {
                let t = #[trigger] s.tables.refreshes[i];
                t.token != token || t.rotated_to is Some || t.expires_at <= now
            },
{
    let p = store::live_refresh(token, now);
    tables::first_some(s.tables.refreshes, p);
    tables::first_none(s.tables.refreshes, p);
    if s.refreshable(token, now) is None && s.reachable && now <= last_time() {
        assert forall|i: int| 0 <= i < s.tables.refreshes.len() implies {
            let t = #[trigger] s.tables.refreshes[i];
            t.token != token || t.rotated_to is Some || t.expires_at <= now
        } by {
            assert(!p(s.tables.refreshes[i]));
        }
    }
}

/// Whether an agent holds what a row holds: its scopes are the words of the row.
pub open spec fn agent_row_is(row: AgentRowV, a: crate::rows::AgentV) -> bool {
    &&& row.id == a.id
    &&& row.owner_user_id == a.owner_user_id
    &&& row.name == a.name
    &&& row.secret_hash == a.secret_hash
    &&& row.status == a.status
    &&& row.created_at == a.created_at
    &&& forall|w: Seq<char>| #[trigger]
        a.scopes.contains(w) <==> w.len() > 0 && text::split(row.scopes, ' ').contains(w)
}

/// An agent is found by its identifier alone, with what its row holds.
pub proof fn agents_are_found_by_identifier(s: StoreV, id: Seq<char>)
    ensures
        s.with_agent(id) matches Some(a) ==> s.reachable && a.id == id && exists|i: int|
            0 <= i < s.tables.agents.len() && agent_row_is(#[trigger] s.tables.agents[i], a),
        s.reachable && s.with_agent(id) is None ==> forall|i: int|
            0 <= i < s.tables.agents.len() ==> (#[trigger] s.tables.agents[i]).id != id,
{
    let p = tables::agent_id(id);
    tables::first_some(s.tables.agents, p);
    tables::first_none(s.tables.agents, p);
    if s.with_agent(id) is Some {
        let row = tables::first(s.tables.agents, p)->0;
        let i = choose|i: int| 0 <= i < s.tables.agents.len() && s.tables.agents[i] == row;
        agent_of_row(row);
        assert(agent_row_is(s.tables.agents[i], s.with_agent(id)->0));
    } else if s.reachable {
        assert forall|i: int| 0 <= i < s.tables.agents.len() implies (#[trigger] s.tables.agents[i]).id != id by {
            assert(!p(s.tables.agents[i]));
        }
    }
}

/// The agent of a row holds what the row holds.
pub proof fn agent_of_row(row: AgentRowV)
    ensures
        agent_row_is(row, store::agent_of(row)),
{
    let pieces = text::split(row.scopes, ' ');
    let keep = |w: Seq<char>| w.len() > 0;
    let kept = pieces.filter(keep);
    tables::kept(pieces, keep);
    assert(store::agent_of(row).scopes == kept);
}

// ---------------------------------------------------------------------------------------------
// What is changed
// ---------------------------------------------------------------------------------------------

/// A change is either made, put on record and answered with success, or it leaves the store as it is and
/// is answered with the reason.
pub proof fn changes_are_made_or_not(s: StoreV, c: ChangeV)
    ensures
        s.answer(c) is Ok ==> s.reachable && s.step(c).journal == s.journal.push(c) && s.step(c).reachable,
        s.answer(c) is Err ==> s.step(c) == s,
        !s.reachable <==> s.answer(c) == Err::<(), StoreError>(StoreError::Unreachable),
        s.accepts(c) <==> s.answer(c) is Ok,
{
}

/// New rows are taken exactly where their keys are free and their times can be stored.
pub proof fn when_rows_are_taken(s: StoreV, c: ChangeV)
    requires
        s.reachable,
    ensures
        c matches ChangeV::InsertUser { user, created_at } ==> (s.accepts(c) <==> created_at <= last_time()
            && forall|i: int|
            0 <= i < s.tables.users.len() ==> {
                let u = #[trigger] s.tables.users[i];
                &&& u.id != user.id
                &&& u.email != user.email
                &&& user.github_id is None || u.github_id != user.github_id
            }),
        c matches ChangeV::InsertSession { session } ==> (s.accepts(c) <==> session.created_at <= last_time()
            && session.expires_at <= last_time() && forall|i: int|
            0 <= i < s.tables.sessions.len() ==> (#[trigger] s.tables.sessions[i]).id != session.id),
        c matches ChangeV::InsertClient { client } ==> (s.accepts(c) <==> client.created_at <= last_time() && forall|
            i: int,
        |
            0 <= i < s.tables.clients.len() ==> (#[trigger] s.tables.clients[i]).client_id != client.client_id),
        c matches ChangeV::InsertAuthCode { auth_code } ==> (s.accepts(c) <==> auth_code.issued_at <= last_time()
            && auth_code.expires_at <= last_time() && forall|i: int|
            0 <= i < s.tables.codes.len() ==> (#[trigger] s.tables.codes[i]).code.code != auth_code.code),
        c matches ChangeV::InsertRefresh { refresh } ==> (s.accepts(c) <==> refresh.issued_at <= last_time()
            && refresh.expires_at <= last_time() && forall|i: int|
            0 <= i < s.tables.refreshes.len() ==> (#[trigger] s.tables.refreshes[i]).token != refresh.token),
        c matches ChangeV::InsertAgent { agent } ==> (s.accepts(c) <==> agent.created_at <= last_time() && forall|i: int|
            0 <= i < s.tables.agents.len() ==> (#[trigger] s.tables.agents[i]).id != agent.id),
        c matches ChangeV::InsertAudit { entry } ==> (s.accepts(c) <==> entry.at <= last_time()),
        c matches ChangeV::UpsertConsent { consent } ==> (s.accepts(c) <==> consent.updated_at <= last_time()),
        c matches ChangeV::TouchAgent { at, .. } ==> (s.accepts(c) <==> at <= last_time()),
        c is SetPasswordHash || c is PromoteAdmin || c is DeleteSession || c is MarkCodeUsed || c is RotateRefresh
            || c is SetAgentStatus ==> s.accepts(c),
{
    match c {
        ChangeV::InsertUser { user, created_at } => {
            let p = tables::clashing(user);
            tables::first_none(s.tables.users, p);
            if s.accepts(c) {
                assert forall|i: int| 0 <= i < s.tables.users.len() implies {
                    let u = #[trigger] s.tables.users[i];
                    &&& u.id != user.id
                    &&& u.email != user.email
                    &&& user.github_id is None || u.github_id != user.github_id
                } by {
                    assert(!p(s.tables.users[i]));
                }
            }
        },
        ChangeV::InsertSession { session } => {
            let p = tables::session_id(session.id);
            tables::first_none(s.tables.sessions, p);
            if s.accepts(c) {
                assert forall|i: int| 0 <= i < s.tables.sessions.len() implies (#[trigger] s.tables.sessions[i]).id
                    != session.id by {
                    assert(!p(s.tables.sessions[i]));
                }
            }
        },
        ChangeV::InsertClient { client } => {
            let p = tables::client_id(client.client_id);
            tables::first_none(s.tables.clients, p);
            if s.accepts(c) {
                assert forall|i: int| 0 <= i < s.tables.clients.len() implies (
                #[trigger] s.tables.clients[i]).client_id != client.client_id by {
                    assert(!p(s.tables.clients[i]));
                }
            }
        },
        ChangeV::InsertAuthCode { auth_code } => {
            let p = tables::code_text(auth_code.code);
            tables::first_none(s.tables.codes, p);
            if s.accepts(c) {
                assert forall|i: int| 0 <= i < s.tables.codes.len() implies (#[trigger] s.tables.codes[i]).code.code
                    != auth_code.code by {
                    assert(!p(s.tables.codes[i]));
                }
            }
        },
        ChangeV::InsertRefresh { refresh } => {
            let p = tables::refresh_text(refresh.token);
            tables::first_none(s.tables.refreshes, p);
            if s.accepts(c) {
                assert forall|i: int| 0 <= i < s.tables.refreshes.len() implies (
                #[trigger] s.tables.refreshes[i]).token != refresh.token by {
                    assert(!p(s.tables.refreshes[i]));
                }
            }
        },
        ChangeV::InsertAgent { agent } => {
            let p = tables::agent_id(agent.id);
            tables::first_none(s.tables.agents, p);
            if s.accepts(c) {
                assert forall|i: int| 0 <= i < s.tables.agents.len() implies (#[trigger] s.tables.agents[i]).id
                    != agent.id by {
                    assert(!p(s.tables.agents[i]));
                }
            }
        },
        _ => {},
    }
}

/// A change that is made writes the row that it names: a new one at the end, or the one with its key, of
/// which nothing else changes.
pub proof fn what_changes_write(s: StoreV, c: ChangeV, i: int)
    requires
        s.accepts(c),
    ensures
        ({
            let a = s.tables;
            let b = s.step(c).tables;
            &&& c matches ChangeV::InsertUser { user, .. } ==> b.users == a.users.push(user)
            &&& c matches ChangeV::InsertSession { session } ==> b.sessions == a.sessions.push(session)
            &&& c matches ChangeV::InsertClient { client } ==> b.clients == a.clients.push(client)
            &&& c matches ChangeV::InsertAuthCode { auth_code } ==> b.codes.len() == a.codes.len() + 1
                && b.codes.last().code == auth_code && !b.codes.last().used && b.codes.drop_last() == a.codes
            &&& c matches ChangeV::InsertRefresh { refresh } ==> b.refreshes == a.refreshes.push(refresh)
            &&& c matches ChangeV::InsertAgent { agent } ==> b.agents == a.agents.push(agent)
            &&& c matches ChangeV::MarkCodeUsed { code } ==> b.codes.len() == a.codes.len() && (0 <= i < a.codes.len()
                ==> b.codes[i].code == a.codes[i].code && (b.codes[i].used <==> a.codes[i].used || a.codes[i].code.code
                == code))
            &&& c matches ChangeV::RotateRefresh { token, replacement } ==> b.refreshes.len() == a.refreshes.len() && (
            0 <= i < a.refreshes.len() ==> b.refreshes[i] == (RefreshTokenV {
                rotated_to: if a.refreshes[i].token == token {
                    Some(replacement)
                } else {
                    a.refreshes[i].rotated_to
                },
                ..a.refreshes[i]
            }))
            &&& c matches ChangeV::TouchAgent { id, at } ==> b.agents.len() == a.agents.len() && (0 <= i
                < a.agents.len() ==> b.agents[i] == (AgentRowV {
                last_seen: if a.agents[i].id == id {
                    Some(at)
                } else {
                    a.agents[i].last_seen
                },
                ..a.agents[i]
            }))
            &&& c matches ChangeV::DeleteSession { id } ==> forall|x: SessionV| #[trigger]
                b.sessions.contains(x) <==> a.sessions.contains(x) && x.id != id
        }),
{
    match c {
        ChangeV::InsertAuthCode { auth_code } => {
            assert(s.step(c).tables.codes.drop_last() =~= s.tables.codes);
        },
        ChangeV::DeleteSession { id } => {
            tables::kept(s.tables.sessions, |x: SessionV| x.id != id);
        },
        _ => {},
    }
}

/// What starts now and lasts so long ends when the time is over, or with the last time that there is.
pub proof fn when_things_end(now: u64, ttl: u64)
    ensures
        now + ttl <= u64::MAX ==> store::later(now, ttl) == now + ttl,
        now + ttl > u64::MAX ==> store::later(now, ttl) == u64::MAX,
{
}

/// Each change touches one table alone.
pub proof fn changes_touch_one_table(s: StoreV, c: ChangeV)
    ensures
        ({
            let a = s.tables;
            let b = s.step(c).tables;
            let people = c is InsertUser || c is SetPasswordHash || c is PromoteAdmin || c is LinkGithub;
            &&& people || a.users == b.users
            &&& c is PromoteAdmin || a.promoted == b.promoted
            &&& c is InsertSession || c is DeleteSession || a.sessions == b.sessions
            &&& c is InsertClient || a.clients == b.clients
            &&& c is InsertAuthCode || c is MarkCodeUsed || a.codes == b.codes
            &&& c is UpsertConsent || a.consents == b.consents
            &&& c is InsertRefresh || c is RotateRefresh || a.refreshes == b.refreshes
            &&& c is InsertAgent || c is SetAgentStatus || c is TouchAgent || a.agents == b.agents
        }),
{
}

/// People are changed one at a time: whoever is not named by a change stays as they are, and no one is
/// lost.
pub proof fn other_people_stay(s: StoreV, c: ChangeV, key: Seq<char>)
    ensures
        c is InsertUser && s.with_id(key) is Some ==> s.step(c).with_id(key) == s.with_id(key),
        c is InsertUser && s.with_email(key) is Some ==> s.step(c).with_email(key) == s.with_email(key),
        c matches ChangeV::SetPasswordHash { user_id, .. } ==> key != user_id ==> s.step(c).with_id(key) == s.with_id(
            key,
        ),
        c matches ChangeV::PromoteAdmin { email } ==> key != email ==> s.step(c).with_email(key) == s.with_email(key),
        c matches ChangeV::LinkGithub { user_id, .. } ==> key != user_id ==> s.step(c).with_id(key) == s.with_id(key),
{
    let users = s.tables.users;
    tables::first_some(users, tables::user_id(key));
    tables::first_some(users, tables::user_email(key));
    match c {
        ChangeV::InsertUser { user, .. } => {
            tables::first_push(users, user, tables::user_id(key));
            tables::first_push(users, user, tables::user_email(key));
        },
        ChangeV::SetPasswordHash { user_id, hash } => {
            tables::first_map(users, |u: UserV| tables::with_hash(u, user_id, hash), tables::user_id(key));
        },
        ChangeV::PromoteAdmin { email } => {
            tables::first_map(users, |u: UserV| tables::promoted(u, email), tables::user_email(key));
        },
        ChangeV::LinkGithub { user_id, github_id } => {
            tables::first_map(users, |u: UserV| tables::linked(u, user_id, github_id), tables::user_id(key));
        },
        _ => {},
    }
}

/// A GitHub account that is linked to a person is theirs, and nothing else of them changes.
pub proof fn linked_accounts_are_theirs(s: StoreV, user_id: Seq<char>, github_id: Seq<char>)
    requires
        s.with_id(user_id) is Some,
        s.accepts(ChangeV::LinkGithub { user_id, github_id }),
    ensures
        s.step(ChangeV::LinkGithub { user_id, github_id }).with_id(user_id) == Some(
            UserV { github_id: Some(github_id), ..s.with_id(user_id)->0 },
        ),
{
    tables::first_some(s.tables.users, tables::user_id(user_id));
    tables::first_map(
        s.tables.users,
        |u: UserV| tables::linked(u, user_id, github_id),
        tables::user_id(user_id),
    );
}

/// What is said of one session, code, decision, refresh token or client says nothing of another.
pub proof fn other_rows_stay(s: StoreV, c: ChangeV, key: Seq<char>, b: Seq<char>, d: Seq<char>, now: u64)
    ensures
        c matches ChangeV::InsertSession { session } ==> session.id != key ==> s.step(c).of_session(key, now)
            == s.of_session(key, now),
        c matches ChangeV::DeleteSession { id } ==> id != key ==> s.step(c).of_session(key, now) == s.of_session(
            key,
            now,
        ),
        c is InsertClient && s.with_client(key) is Some ==> s.step(c).with_client(key) == s.with_client(key),
        c matches ChangeV::InsertAuthCode { auth_code } ==> auth_code.code != key ==> s.step(c).redeemable(key, now)
            == s.redeemable(key, now),
        c matches ChangeV::MarkCodeUsed { code } ==> code != key ==> s.step(c).redeemable(key, now) == s.redeemable(
            key,
            now,
        ),
        c matches ChangeV::UpsertConsent { consent } ==> (consent.user_id != key || consent.client_id != b
            || consent.scope != d) ==> s.step(c).decision(key, b, d) == s.decision(key, b, d),
        c matches ChangeV::InsertRefresh { refresh } ==> refresh.token != key ==> s.step(c).refreshable(key, now)
            == s.refreshable(key, now),
        c matches ChangeV::RotateRefresh { token, .. } ==> token != key ==> s.step(c).refreshable(key, now)
            == s.refreshable(key, now),
{
    match c {
        ChangeV::InsertSession { session } => {
            tables::first_push(s.tables.sessions, session, store::live_session(key, now));
        },
        ChangeV::DeleteSession { id } => {
            if id != key {
                first_kept(s.tables.sessions, id, key, now);
            }
        },
        ChangeV::InsertClient { client } => {
            tables::first_push(s.tables.clients, client, tables::client_id(key));
        },
        ChangeV::InsertAuthCode { auth_code } => {
            tables::first_push(
                s.tables.codes,
                CodeRowV { code: auth_code, used: false },
                store::live_code(key, now),
            );
        },
        ChangeV::MarkCodeUsed { code } => {
            if code != key {
                let f = |x: CodeRowV| tables::redeemed(x, code);
                let p = store::live_code(key, now);
                tables::first_some(s.tables.codes, p);
                tables::first_map(s.tables.codes, f, p);
            }
        },
        ChangeV::UpsertConsent { consent } => {
            let p = tables::consent_key(key, b, d);
            tables::first_some(s.tables.consents, p);
            tables::first_push(s.tables.consents, consent, p);
            tables::first_map(s.tables.consents, |x: ConsentV| tables::decided(x, consent), p);
        },
        ChangeV::InsertRefresh { refresh } => {
            tables::first_push(s.tables.refreshes, refresh, store::live_refresh(key, now));
        },
        ChangeV::RotateRefresh { token, replacement } => {
            if token != key {
                let p = store::live_refresh(key, now);
                tables::first_some(s.tables.refreshes, p);
                tables::first_map(
                    s.tables.refreshes,
                    |x: RefreshTokenV| tables::rotated(x, token, replacement),
                    p,
                );
            }
        },
        _ => {},
    }
}

proof fn first_kept(sessions: Seq<SessionV>, id: Seq<char>, key: Seq<char>, now: u64)
    requires
        id != key,
    ensures
        tables::first(sessions.filter(|x: SessionV| x.id != id), store::live_session(key, now)) == tables::first(
            sessions,
            store::live_session(key, now),
        ),
    decreases sessions.len(),
{
    reveal(Seq::filter);
    let keep = |x: SessionV| x.id != id;
    let p = store::live_session(key, now);
    if sessions.len() > 0 {
        let d = sessions.drop_last();
        let x = sessions.last();
        first_kept(d, id, key, now);
        assert(d.push(x) =~= sessions);
        tables::first_push(d, x, p);
        if keep(x) {
            assert(sessions.filter(keep) =~= d.filter(keep).push(x));
            tables::first_push(d.filter(keep), x, p);
        } else {
            assert(sessions.filter(keep) =~= d.filter(keep));
            assert(!p(x));
        }
    } else {
        assert(sessions.filter(keep) =~= sessions);
    }
}

/// A request fails where what it is for cannot be kept: an account, a client, a code or its use, the use of
/// a refresh token, an agent or its status. It does not where only a session, a decision, a promotion, a
/// link, a new refresh token, an audit entry or a time cannot.
pub proof fn what_has_to_be_kept(c: ChangeV)
    ensures
        c is InsertUser || c is InsertClient || c is InsertAuthCode || c is InsertAgent || c is MarkCodeUsed
            ==> tables::essential(c),
        c is RotateRefresh || c is SetAgentStatus || c is SetPasswordHash ==> tables::essential(c),
        c is InsertSession || c is DeleteSession || c is UpsertConsent || c is PromoteAdmin ==> !tables::essential(c),
        c is LinkGithub || c is InsertRefresh || c is InsertAudit || c is TouchAgent ==> !tables::essential(c),
{
}

/// What comes of one change after another is what comes of all of them, and the tables are those that the
/// record of the changes tells of.
pub proof fn records_are_complete(s: StoreV, c: ChangeV, d: ChangeV)
    requires
        s.accepts(c),
        s.step(c).accepts(d),
    ensures
        s.step(c).step(d).journal == s.journal + seq![c, d],
        s.step(c).step(d).tables == tables::replay(s.tables, seq![c, d]),
{
    let cs = seq![c, d];
    assert(cs.drop_last() =~= seq![c]);
    assert(seq![c].drop_last() =~= Seq::empty());
    reveal_with_fuel(tables::replay, 3);
    assert(s.journal.push(c).push(d) =~= s.journal + cs);
}

} // verus!
