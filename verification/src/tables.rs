//! The tables of the identity provider and the changes that can be made to them.

use crate::rows::{
    AgentRow, AgentRowV, AuditEntry, AuditEntryV, AuthCode, AuthCodeV, ClientRow, ClientRowV, CodeRowV, Consent,
    ConsentV, RefreshToken, RefreshTokenV, Session, SessionV, User, UserV,
};
use crate::text;
use vstd::prelude::*;

verus! {

/// A change to the tables.
#[derive(Debug)]
pub enum Change {
    /// A new person.
    InsertUser { user: User, created_at: u64 },
    /// Another password hash, or none, for a person.
    SetPasswordHash { user_id: String, hash: Option<String> },
    /// The person with this email, if there is one, becomes an administrator, and is known as promoted
    /// from then on.
    PromoteAdmin { email: String },
    /// A GitHub account for a person.
    LinkGithub { user_id: String, github_id: String },
    /// A new session.
    InsertSession { session: Session },
    /// The end of a session.
    DeleteSession { id: String },
    /// A new client.
    InsertClient { client: ClientRow },
    /// A new authorization code.
    InsertAuthCode { auth_code: AuthCode },
    /// An authorization code is redeemed.
    MarkCodeUsed { code: String },
    /// A decision, in place of an earlier one for the same person, client and scope.
    UpsertConsent { consent: Consent },
    /// A new refresh token.
    InsertRefresh { refresh: RefreshToken },
    /// A refresh token is replaced.
    RotateRefresh { token: String, replacement: String },
    /// An entry of the audit log.
    InsertAudit { entry: AuditEntry },
    /// A new agent.
    InsertAgent { agent: AgentRow },
    /// Another status for an agent of this owner.
    SetAgentStatus { id: String, owner: String, status: String },
    /// An agent was seen.
    TouchAgent { id: String, at: u64 },
}

/// What a change holds.
pub enum ChangeV {
    InsertUser { user: UserV, created_at: u64 },
    SetPasswordHash { user_id: Seq<char>, hash: Option<Seq<char>> },
    PromoteAdmin { email: Seq<char> },
    LinkGithub { user_id: Seq<char>, github_id: Seq<char> },
    InsertSession { session: SessionV },
    DeleteSession { id: Seq<char> },
    InsertClient { client: ClientRowV },
    InsertAuthCode { auth_code: AuthCodeV },
    MarkCodeUsed { code: Seq<char> },
    UpsertConsent { consent: ConsentV },
    InsertRefresh { refresh: RefreshTokenV },
    RotateRefresh { token: Seq<char>, replacement: Seq<char> },
    InsertAudit { entry: AuditEntryV },
    InsertAgent { agent: AgentRowV },
    SetAgentStatus { id: Seq<char>, owner: Seq<char>, status: Seq<char> },
    TouchAgent { id: Seq<char>, at: u64 },
}

impl View for Change {
    type V = ChangeV;

    open spec fn view(&self) -> ChangeV {
        match *self {
            Change::InsertUser { user, created_at } => ChangeV::InsertUser {
                user: user@,
                created_at: created_at,
            },
            Change::SetPasswordHash { user_id, hash } => ChangeV::SetPasswordHash {
                user_id: user_id@,
                hash: text::opt_view(hash),
            },
            Change::PromoteAdmin { email } => ChangeV::PromoteAdmin { email: email@ },
            Change::LinkGithub { user_id, github_id } => ChangeV::LinkGithub {
                user_id: user_id@,
                github_id: github_id@,
            },
            Change::InsertSession { session } => ChangeV::InsertSession { session: session@ },
            Change::DeleteSession { id } => ChangeV::DeleteSession { id: id@ },
            Change::InsertClient { client } => ChangeV::InsertClient { client: client@ },
            Change::InsertAuthCode { auth_code } => ChangeV::InsertAuthCode {
                auth_code: auth_code@,
            },
            Change::MarkCodeUsed { code } => ChangeV::MarkCodeUsed { code: code@ },
            Change::UpsertConsent { consent } => ChangeV::UpsertConsent { consent: consent@ },
            Change::InsertRefresh { refresh } => ChangeV::InsertRefresh { refresh: refresh@ },
            Change::RotateRefresh { token, replacement } => ChangeV::RotateRefresh {
                token: token@,
                replacement: replacement@,
            },
            Change::InsertAudit { entry } => ChangeV::InsertAudit { entry: entry@ },
            Change::InsertAgent { agent } => ChangeV::InsertAgent { agent: agent@ },
            Change::SetAgentStatus { id, owner, status } => ChangeV::SetAgentStatus {
                id: id@,
                owner: owner@,
                status: status@,
            },
            Change::TouchAgent { id, at } => ChangeV::TouchAgent { id: id@, at: at },
        }
    }
}

impl Clone for Change {
    fn clone(&self) -> (r: Self)
        ensures
            r@ == self@,
    {
        match self {
            Change::InsertUser { user, created_at } => Change::InsertUser {
                user: user.clone(),
                created_at: *created_at,
            },
            Change::SetPasswordHash { user_id, hash } => Change::SetPasswordHash {
                user_id: user_id.clone(),
                hash: text::copy_opt(hash),
            },
            Change::PromoteAdmin { email } => Change::PromoteAdmin { email: email.clone() },
            Change::LinkGithub { user_id, github_id } => Change::LinkGithub {
                user_id: user_id.clone(),
                github_id: github_id.clone(),
            },
            Change::InsertSession { session } => Change::InsertSession { session: session.clone() },
            Change::DeleteSession { id } => Change::DeleteSession { id: id.clone() },
            Change::InsertClient { client } => Change::InsertClient { client: client.clone() },
            Change::InsertAuthCode { auth_code } => Change::InsertAuthCode {
                auth_code: auth_code.clone(),
            },
            Change::MarkCodeUsed { code } => Change::MarkCodeUsed { code: code.clone() },
            Change::UpsertConsent { consent } => Change::UpsertConsent { consent: consent.clone() },
            Change::InsertRefresh { refresh } => Change::InsertRefresh { refresh: refresh.clone() },
            Change::RotateRefresh { token, replacement } => Change::RotateRefresh {
                token: token.clone(),
                replacement: replacement.clone(),
            },
            Change::InsertAudit { entry } => Change::InsertAudit { entry: entry.clone() },
            Change::InsertAgent { agent } => Change::InsertAgent { agent: agent.clone() },
            Change::SetAgentStatus { id, owner, status } => Change::SetAgentStatus {
                id: id.clone(),
                owner: owner.clone(),
                status: status.clone(),
            },
            Change::TouchAgent { id, at } => Change::TouchAgent { id: id.clone(), at: *at },
        }
    }
}

/// Whether a request fails where its change cannot be written. The others are made as far as they can
/// be: promotions, links, the begin and end of sessions, decisions, new refresh tokens, audit entries and
/// when agents were seen.
pub open spec fn essential(c: ChangeV) -> bool {
    c is InsertUser || c is SetPasswordHash || c is InsertClient || c is InsertAuthCode || c is MarkCodeUsed
        || c is RotateRefresh || c is InsertAgent || c is SetAgentStatus
}

impl Change {
    /// Whether a request fails where its change cannot be written.
    pub fn is_essential(&self) -> (r: bool)
        ensures
            r == essential(self@),
    {
        match self {
            Change::InsertUser { .. } | Change::SetPasswordHash { .. } | Change::InsertClient { .. } => true,
            Change::InsertAuthCode { .. } | Change::MarkCodeUsed { .. } | Change::RotateRefresh { .. } => true,
            Change::InsertAgent { .. } | Change::SetAgentStatus { .. } => true,
            _ => false,
        }
    }
}

/// The tables, and the emails of those who were ever promoted. The audit log is only ever added to and
/// never read, so it is no table here: its entries are changes.
#[verifier::ext_equal]
pub struct Tables {
    pub users: Seq<UserV>,
    pub sessions: Seq<SessionV>,
    pub clients: Seq<ClientRowV>,
    pub codes: Seq<CodeRowV>,
    pub consents: Seq<ConsentV>,
    pub refreshes: Seq<RefreshTokenV>,
    pub agents: Seq<AgentRowV>,
    pub promoted: Set<Seq<char>>,
}

/// The first row that a predicate picks.
pub open spec fn first<T>(s: Seq<T>, p: spec_fn(T) -> bool) -> Option<T>
    decreases s.len(),
{
    if s.len() == 0 {
        None
    } else if p(s[0]) {
        Some(s[0])
    } else {
        first(s.skip(1), p)
    }
}

/// A row that the predicate picks, and before which it picks none, is the first one.
pub proof fn first_is<T>(s: Seq<T>, p: spec_fn(T) -> bool, i: int)
    requires
        0 <= i < s.len(),
        p(s[i]),
        forall|j: int| 0 <= j < i ==> !p(#[trigger] s[j]),
    ensures
        first(s, p) == Some(s[i]),
    decreases i,
{
    if i > 0 {
        assert(!p(s[0]));
        assert forall|j: int| 0 <= j < i - 1 implies !p(#[trigger] s.skip(1)[j]) by {
            assert(s.skip(1)[j] == s[j + 1]);
        }
        first_is(s.skip(1), p, i - 1);
    }
}

/// The predicate picks no row where there is no first one.
pub proof fn first_none<T>(s: Seq<T>, p: spec_fn(T) -> bool)
    ensures
        first(s, p) is None <==> forall|j: int| 0 <= j < s.len() ==> !p(#[trigger] s[j]),
    decreases s.len(),
{
    if s.len() > 0 {
        let t = s.skip(1);
        first_none(t, p);
        if !p(s[0]) {
            assert(forall|j: int| 0 <= j < t.len() ==> #[trigger] t[j] == s[j + 1]);
            if first(s, p) is None {
                assert forall|j: int| 0 <= j < s.len() implies !p(#[trigger] s[j]) by {
                    if j > 0 {
                        assert(!p(t[j - 1]));
                    }
                }
            } else if forall|j: int| 0 <= j < s.len() ==> !p(#[trigger] s[j]) {
                assert forall|j: int| 0 <= j < t.len() implies !p(#[trigger] t[j]) by {
                    assert(t[j] == s[j + 1]);
                }
            }
        }
    }
}

/// The first row that a predicate picks is a row of the table, and the predicate picks it.
pub proof fn first_some<T>(s: Seq<T>, p: spec_fn(T) -> bool)
    ensures
        first(s, p) matches Some(x) ==> p(x) && s.contains(x),
    decreases s.len(),
{
    if s.len() > 0 && !p(s[0]) {
        first_some(s.skip(1), p);
        if first(s, p) is Some {
            let x = first(s, p)->0;
            let k = choose|k: int| 0 <= k < s.skip(1).len() && s.skip(1)[k] == x;
            assert(s[k + 1] == x);
        }
    }
}

/// A row at the end is the first one where there was none before.
pub proof fn first_push<T>(s: Seq<T>, x: T, p: spec_fn(T) -> bool)
    ensures
        first(s.push(x), p) == match first(s, p) {
            Some(y) => Some(y),
            None => if p(x) {
                Some(x)
            } else {
                None
            },
        },
    decreases s.len(),
{
    let t = s.push(x);
    if s.len() == 0 {
        assert(t[0] == x);
        assert(t.skip(1) =~= Seq::empty());
        assert(first(s, p) is None);
        assert(first(t.skip(1), p) is None);
    } else {
        assert(t[0] == s[0]);
        if !p(s[0]) {
            assert(t.skip(1) =~= s.skip(1).push(x));
            first_push(s.skip(1), x, p);
            assert(first(s, p) == first(s.skip(1), p));
            assert(first(t, p) == first(t.skip(1), p));
        }
    }
}

/// Changing rows in a way that the predicate does not see changes the first one in that way.
pub proof fn first_map<T>(s: Seq<T>, f: spec_fn(T) -> T, p: spec_fn(T) -> bool)
    requires
        forall|x: T| #[trigger] p(f(x)) == p(x),
    ensures
        first(s.map_values(f), p) == match first(s, p) {
            Some(y) => Some(f(y)),
            None => None,
        },
    decreases s.len(),
{
    let t = s.map_values(f);
    if s.len() > 0 {
        assert(t[0] == f(s[0]));
        assert(p(f(s[0])) == p(s[0]));
        assert(t.skip(1) =~= s.skip(1).map_values(f));
        first_map(s.skip(1), f, p);
    }
}

/// What is kept of a list is what is in it and passes.
pub proof fn kept<T>(s: Seq<T>, p: spec_fn(T) -> bool)
    ensures
        forall|x: T| #[trigger] s.filter(p).contains(x) <==> s.contains(x) && p(x),
    decreases s.len(),
{
    reveal(Seq::filter);
    let f = s.filter(p);
    if s.len() > 0 {
        let d = s.drop_last();
        kept(d, p);
        assert forall|x: T| #[trigger] f.contains(x) <==> s.contains(x) && p(x) by {
            let g = d.filter(p);
            if f.contains(x) {
                let k = choose|k: int| 0 <= k < f.len() && f[k] == x;
                if k < g.len() {
                    assert(g[k] == x);
                    assert(g.contains(x));
                    let j = choose|j: int| 0 <= j < d.len() && d[j] == x;
                    assert(s[j] == x);
                } else {
                    assert(s[s.len() - 1] == x);
                }
            }
            if s.contains(x) && p(x) {
                let k = choose|k: int| 0 <= k < s.len() && s[k] == x;
                if k < d.len() {
                    assert(d[k] == x);
                    assert(g.contains(x));
                    let j = choose|j: int| 0 <= j < g.len() && g[j] == x;
                    assert(f[j] == x);
                } else {
                    assert(f[f.len() - 1] == x);
                }
            }
        }
    }
}

/// Picks the person with this identifier.
pub open spec fn user_id(id: Seq<char>) -> spec_fn(UserV) -> bool {
    |u: UserV| u.id == id
}

/// Picks the person with this email.
pub open spec fn user_email(email: Seq<char>) -> spec_fn(UserV) -> bool {
    |u: UserV| u.email == email
}

/// Picks the person with this GitHub account.
pub open spec fn user_github(id: Seq<char>) -> spec_fn(UserV) -> bool {
    |u: UserV| u.github_id == Some(id)
}

/// Picks the session with this identifier.
pub open spec fn session_id(id: Seq<char>) -> spec_fn(SessionV) -> bool {
    |s: SessionV| s.id == id
}

/// Picks the client with this identifier.
pub open spec fn client_id(id: Seq<char>) -> spec_fn(ClientRowV) -> bool {
    |c: ClientRowV| c.client_id == id
}

/// Picks the row of this authorization code.
pub open spec fn code_text(code: Seq<char>) -> spec_fn(CodeRowV) -> bool {
    |c: CodeRowV| c.code.code == code
}

/// Picks the decision of this person about this client and scope.
pub open spec fn consent_key(
    user_id: Seq<char>,
    client_id: Seq<char>,
    scope: Seq<char>,
) -> spec_fn(ConsentV) -> bool {
    |c: ConsentV| c.user_id == user_id && c.client_id == client_id && c.scope == scope
}

/// Picks this refresh token.
pub open spec fn refresh_text(token: Seq<char>) -> spec_fn(RefreshTokenV) -> bool {
    |t: RefreshTokenV| t.token == token
}

/// Picks the agent with this identifier.
pub open spec fn agent_id(id: Seq<char>) -> spec_fn(AgentRowV) -> bool {
    |a: AgentRowV| a.id == id
}

/// Whether a point in time, in seconds, can be stored.
pub open spec fn storable(t: u64) -> bool {
    t <= i64::MAX
}

/// Whether two people cannot be stored together: no identifier, email or GitHub account is shared.
pub open spec fn clash(a: UserV, b: UserV) -> bool {
    a.id == b.id || a.email == b.email || (a.github_id is Some && a.github_id == b.github_id)
}

/// Picks the people that cannot be stored together with this one.
pub open spec fn clashing(u: UserV) -> spec_fn(UserV) -> bool {
    |x: UserV| clash(x, u)
}

/// Picks a person other than this one with this GitHub account.
pub open spec fn other_holder(id: Seq<char>, github_id: Seq<char>) -> spec_fn(UserV) -> bool {
    |u: UserV| u.github_id == Some(github_id) && u.id != id
}

/// Whether the tables take a change: times are in range, and no key occurs twice.
pub open spec fn admits(t: Tables, c: ChangeV) -> bool {
    match c {
        ChangeV::InsertUser { user, created_at } => storable(created_at) && first(t.users, clashing(user)) is None,
        ChangeV::LinkGithub { user_id, github_id } => first(t.users, self::user_id(user_id)) is Some ==> first(
            t.users,
            other_holder(user_id, github_id),
        ) is None,
        ChangeV::InsertSession { session } => storable(session.created_at) && storable(session.expires_at) && first(
            t.sessions,
            session_id(session.id),
        ) is None,
        ChangeV::InsertClient { client } => storable(client.created_at) && first(
            t.clients,
            client_id(client.client_id),
        ) is None,
        ChangeV::InsertAuthCode { auth_code: code } => storable(code.issued_at) && storable(code.expires_at) && first(
            t.codes,
            code_text(code.code),
        ) is None,
        ChangeV::UpsertConsent { consent } => storable(consent.updated_at),
        ChangeV::InsertRefresh { refresh: token } => storable(token.issued_at) && storable(token.expires_at) && first(
            t.refreshes,
            refresh_text(token.token),
        ) is None,
        ChangeV::InsertAudit { entry } => storable(entry.at),
        ChangeV::InsertAgent { agent } => storable(agent.created_at) && first(t.agents, agent_id(agent.id)) is None,
        ChangeV::TouchAgent { id, at } => storable(at),
        _ => true,
    }
}

/// A person with another password hash, if this is the one.
pub open spec fn with_hash(u: UserV, id: Seq<char>, hash: Option<Seq<char>>) -> UserV {
    if u.id == id {
        UserV { password_hash: hash, ..u }
    } else {
        u
    }
}

/// A person as an administrator, if this is the one.
pub open spec fn promoted(u: UserV, email: Seq<char>) -> UserV {
    if u.email == email {
        UserV { is_admin: true, ..u }
    } else {
        u
    }
}

/// A person with a GitHub account, if this is the one.
pub open spec fn linked(u: UserV, id: Seq<char>, github_id: Seq<char>) -> UserV {
    if u.id == id {
        UserV { github_id: Some(github_id), ..u }
    } else {
        u
    }
}

/// A code as redeemed, if this is the one.
pub open spec fn redeemed(c: CodeRowV, code: Seq<char>) -> CodeRowV {
    if c.code.code == code {
        CodeRowV { used: true, ..c }
    } else {
        c
    }
}

/// A decision with another outcome, if it is about the same person, client and scope.
pub open spec fn decided(c: ConsentV, d: ConsentV) -> ConsentV {
    if consent_key(d.user_id, d.client_id, d.scope)(c) {
        ConsentV { decision: d.decision, updated_at: d.updated_at, ..c }
    } else {
        c
    }
}

/// A refresh token as replaced, if this is the one.
pub open spec fn rotated(t: RefreshTokenV, token: Seq<char>, replacement: Seq<char>) -> RefreshTokenV {
    if t.token == token {
        RefreshTokenV { rotated_to: Some(replacement), ..t }
    } else {
        t
    }
}

/// An agent with another status, if this is the one and the owner is its owner.
pub open spec fn with_status(a: AgentRowV, id: Seq<char>, owner: Seq<char>, status: Seq<char>) -> AgentRowV {
    if a.id == id && a.owner_user_id == owner {
        AgentRowV { status: status, ..a }
    } else {
        a
    }
}

/// An agent as seen at a point in time, if this is the one.
pub open spec fn seen(a: AgentRowV, id: Seq<char>, at: u64) -> AgentRowV {
    if a.id == id {
        AgentRowV { last_seen: Some(at), ..a }
    } else {
        a
    }
}

/// The tables after a change.
pub open spec fn apply(t: Tables, c: ChangeV) -> Tables {
    match c {
        ChangeV::InsertUser { user, created_at } => Tables { users: t.users.push(user), ..t },
        ChangeV::SetPasswordHash { user_id, hash } => Tables {
            users: t.users.map_values(|u: UserV| with_hash(u, user_id, hash)),
            ..t
        },
        ChangeV::PromoteAdmin { email } => Tables {
            users: t.users.map_values(|u: UserV| promoted(u, email)),
            promoted: if first(t.users, user_email(email)) is Some {
                t.promoted.insert(email)
            } else {
                t.promoted
            },
            ..t
        },
        ChangeV::LinkGithub { user_id, github_id } => Tables {
            users: t.users.map_values(|u: UserV| linked(u, user_id, github_id)),
            ..t
        },
        ChangeV::InsertSession { session } => Tables { sessions: t.sessions.push(session), ..t },
        ChangeV::DeleteSession { id } => Tables { sessions: t.sessions.filter(|s: SessionV| s.id != id), ..t },
        ChangeV::InsertClient { client } => Tables { clients: t.clients.push(client), ..t },
        ChangeV::InsertAuthCode { auth_code } => Tables {
            codes: t.codes.push(CodeRowV { code: auth_code, used: false }),
            ..t
        },
        ChangeV::MarkCodeUsed { code } => Tables { codes: t.codes.map_values(|c: CodeRowV| redeemed(c, code)), ..t },
        ChangeV::UpsertConsent { consent } => Tables {
            consents: if first(t.consents, consent_key(consent.user_id, consent.client_id, consent.scope)) is Some {
                t.consents.map_values(|c: ConsentV| decided(c, consent))
            } else {
                t.consents.push(consent)
            },
            ..t
        },
        ChangeV::InsertRefresh { refresh: token } => Tables { refreshes: t.refreshes.push(token), ..t },
        ChangeV::RotateRefresh { token, replacement } => Tables {
            refreshes: t.refreshes.map_values(|x: RefreshTokenV| rotated(x, token, replacement)),
            ..t
        },
        ChangeV::InsertAudit { entry } => t,
        ChangeV::InsertAgent { agent } => Tables { agents: t.agents.push(agent), ..t },
        ChangeV::SetAgentStatus { id, owner, status } => Tables {
            agents: t.agents.map_values(|a: AgentRowV| with_status(a, id, owner, status)),
            ..t
        },
        ChangeV::TouchAgent { id, at } => Tables { agents: t.agents.map_values(|a: AgentRowV| seen(a, id, at)), ..t },
    }
}

/// The tables after several changes, from the first on.
pub open spec fn replay(t: Tables, cs: Seq<ChangeV>) -> Tables
    decreases cs.len(),
{
    if cs.len() == 0 {
        t
    } else {
        apply(replay(t, cs.drop_last()), cs.last())
    }
}

/// Whether no key occurs twice: no two people clash, and no two sessions, clients, codes, refresh
/// tokens or agents have the same identifier, nor two decisions the same person, client and scope.
pub open spec fn wf(t: Tables) -> bool {
    &&& forall|i: int, j: int| 0 <= i < j < t.users.len() ==> !clash(#[trigger] t.users[i], #[trigger] t.users[j])
    &&& distinct_sessions(t.sessions)
    &&& forall|i: int, j: int|
        0 <= i < j < t.clients.len() ==> (#[trigger] t.clients[i]).client_id != (#[trigger] t.clients[j]).client_id
    &&& forall|i: int, j: int|
        0 <= i < j < t.codes.len() ==> (#[trigger] t.codes[i]).code.code != (#[trigger] t.codes[j]).code.code
    &&& forall|i: int, j: int|
        0 <= i < j < t.consents.len() ==> !consent_key(
            (#[trigger] t.consents[i]).user_id,
            t.consents[i].client_id,
            t.consents[i].scope,
        )(#[trigger] t.consents[j])
    &&& forall|i: int, j: int|
        0 <= i < j < t.refreshes.len() ==> (#[trigger] t.refreshes[i]).token != (#[trigger] t.refreshes[j]).token
    &&& forall|i: int, j: int|
        0 <= i < j < t.agents.len() ==> (#[trigger] t.agents[i]).id != (#[trigger] t.agents[j]).id
}

/// Whether no two sessions have the same identifier.
pub open spec fn distinct_sessions(s: Seq<SessionV>) -> bool {
    forall|i: int, j: int| 0 <= i < j < s.len() ==> (#[trigger] s[i]).id != (#[trigger] s[j]).id
}

/// Leaving out a session keeps the others, each once.
proof fn filter_distinct(s: Seq<SessionV>, id: Seq<char>)
    requires
        distinct_sessions(s),
    ensures
        distinct_sessions(s.filter(|x: SessionV| x.id != id)),
        forall|x: SessionV| s.filter(|x: SessionV| x.id != id).contains(x) ==> s.contains(x) && x.id != id,
    decreases s.len(),
{
    reveal(Seq::filter);
    if s.len() > 0 {
        let p = |x: SessionV| x.id != id;
        let d = s.drop_last();
        assert(distinct_sessions(d));
        filter_distinct(d, id);
        let f = d.filter(p);
        let g = s.filter(p);
        assert forall|x: SessionV| d.contains(x) implies s.contains(x) by {
            let k = choose|k: int| 0 <= k < d.len() && d[k] == x;
            assert(s[k] == x);
        }
        assert forall|i: int| 0 <= i < f.len() implies (#[trigger] f[i]).id != s.last().id by {
            assert(f.contains(f[i]));
            assert(d.contains(f[i]));
            let k = choose|k: int| 0 <= k < d.len() && d[k] == f[i];
            assert(s[k] == f[i]);
        }
        assert forall|x: SessionV| g.contains(x) implies s.contains(x) && x.id != id by {
            let k = choose|k: int| 0 <= k < g.len() && g[k] == x;
            if k < f.len() {
                assert(f[k] == x);
                assert(f.contains(x));
            } else {
                assert(x == s.last());
                assert(s[s.len() - 1] == x);
            }
        }
    }
}

/// Every change that the tables take keeps each key unique.
pub proof fn changes_keep_keys_unique(t: Tables, c: ChangeV)
    requires
        wf(t),
        admits(t, c),
    ensures
        wf(apply(t, c)),
{
    match c {
        ChangeV::InsertUser { user, created_at } => {
            first_none(t.users, clashing(user));
            assert forall|j: int| 0 <= j < t.users.len() implies !clash(#[trigger] t.users[j], user) by {
                assert(!clashing(user)(t.users[j]));
            }
        },
        ChangeV::LinkGithub { user_id, github_id } => {
            first_none(t.users, self::user_id(user_id));
            first_none(t.users, other_holder(user_id, github_id));
            let u = t.users;
            let w = apply(t, c).users;
            assert forall|i: int, j: int| 0 <= i < j < w.len() implies !clash(#[trigger] w[i], #[trigger] w[j]) by {
                assert(!clash(u[i], u[j]));
                assert(w[i] == linked(u[i], user_id, github_id));
                assert(w[j] == linked(u[j], user_id, github_id));
                if u[i].id == user_id {
                    assert(self::user_id(user_id)(u[i]));
                    assert(!other_holder(user_id, github_id)(u[j]));
                }
                if u[j].id == user_id {
                    assert(self::user_id(user_id)(u[j]));
                    assert(!other_holder(user_id, github_id)(u[i]));
                }
            }
        },
        ChangeV::InsertSession { session } => {
            first_none(t.sessions, session_id(session.id));
            assert forall|j: int| 0 <= j < t.sessions.len() implies (#[trigger] t.sessions[j]).id != session.id by {
                assert(!session_id(session.id)(t.sessions[j]));
            }
        },
        ChangeV::DeleteSession { id } => {
            filter_distinct(t.sessions, id);
        },
        ChangeV::InsertClient { client } => {
            first_none(t.clients, client_id(client.client_id));
            assert forall|j: int| 0 <= j < t.clients.len() implies (#[trigger] t.clients[j]).client_id
                != client.client_id by {
                assert(!client_id(client.client_id)(t.clients[j]));
            }
        },
        ChangeV::InsertAuthCode { auth_code: code } => {
            first_none(t.codes, code_text(code.code));
            assert forall|j: int| 0 <= j < t.codes.len() implies (#[trigger] t.codes[j]).code.code != code.code by {
                assert(!code_text(code.code)(t.codes[j]));
            }
        },
        ChangeV::UpsertConsent { consent } => {
            let key = consent_key(consent.user_id, consent.client_id, consent.scope);
            first_none(t.consents, key);
            if first(t.consents, key) is None {
                assert forall|j: int| 0 <= j < t.consents.len() implies !key(#[trigger] t.consents[j]) by {}
            }
        },
        ChangeV::InsertRefresh { refresh: token } => {
            first_none(t.refreshes, refresh_text(token.token));
            assert forall|j: int| 0 <= j < t.refreshes.len() implies (#[trigger] t.refreshes[j]).token
                != token.token by {
                assert(!refresh_text(token.token)(t.refreshes[j]));
            }
        },
        ChangeV::InsertAgent { agent } => {
            first_none(t.agents, agent_id(agent.id));
            assert forall|j: int| 0 <= j < t.agents.len() implies (#[trigger] t.agents[j]).id != agent.id by {
                assert(!agent_id(agent.id)(t.agents[j]));
            }
        },
        _ => {},
    }
}

} // verus!
