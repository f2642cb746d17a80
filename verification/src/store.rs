//! The store: the tables, the journal of the changes made to them, and the queries on them.
//!
//! A store that cannot be reached answers every query and every change with an error and stays as it
//! is. A change that the tables do not take is rejected. The journal holds the changes that were made
//! since it was last taken, for whoever keeps the tables on disk.

use crate::json;
use crate::rows;
use crate::rows::{
    AgentRow, AgentRowV, AgentV, AuditEntry, AuditEntryV, AuthCodeV, ClientRow, ClientRowV, ClientV, CodeRow,
    CodeRowV, Consent, ConsentV, RefreshToken, RefreshTokenV, Session, SessionV, UserV,
};
pub use crate::rows::{Agent, AuthCode, Client, User};
use crate::tables;
use crate::tables::{Change, ChangeV, Tables};
use crate::text;
use serde_json::Value;
use vstd::prelude::*;

verus! {

/// Why the store did not do what it was asked.
#[derive(Clone, Copy, Debug, PartialEq, Eq, Structural)]
pub enum StoreError {
    /// It cannot be reached.
    Unreachable,
    /// A key is taken, or a time is out of range.
    Rejected,
}

/// What a store holds.
#[verifier::ext_equal]
pub struct StoreV {
    pub tables: Tables,
    pub journal: Seq<ChangeV>,
    pub reachable: bool,
}

/// Picks the person with this identifier, if not disabled.
pub open spec fn enabled_user(id: Seq<char>) -> spec_fn(UserV) -> bool {
    |u: UserV| u.id == id && !u.disabled
}

/// Picks the session with this identifier, if not expired.
pub open spec fn live_session(id: Seq<char>, now: u64) -> spec_fn(SessionV) -> bool {
    |s: SessionV| s.id == id && s.expires_at > now
}

/// Picks this authorization code, if neither redeemed nor expired.
pub open spec fn live_code(code: Seq<char>, now: u64) -> spec_fn(CodeRowV) -> bool {
    |c: CodeRowV| c.code.code == code && !c.used && c.code.expires_at > now
}

/// Picks this refresh token, if neither replaced nor expired.
pub open spec fn live_refresh(token: Seq<char>, now: u64) -> spec_fn(RefreshTokenV) -> bool {
    |t: RefreshTokenV| t.token == token && t.expires_at > now && t.rotated_to is None
}

/// Picks the agent with this identifier and owner.
pub open spec fn owned_agent(id: Seq<char>, owner: Seq<char>) -> spec_fn(AgentRowV) -> bool {
    |a: AgentRowV| a.id == id && a.owner_user_id == owner
}

/// The words of a text: what stands between spaces, where that is not empty.
pub open spec fn words(s: Seq<char>) -> Seq<Seq<char>> {
    text::split(s, ' ').filter(|w: Seq<char>| w.len() > 0)
}

/// The lines of a text, trimmed, where something is left of them.
pub open spec fn trimmed_lines(s: Seq<char>) -> Seq<Seq<char>> {
    text::split(s, '\n').map_values(|l: Seq<char>| text::trimmed(l)).filter(|l: Seq<char>| l.len() > 0)
}

/// The client of a row.
pub open spec fn client_of(c: ClientRowV) -> ClientV {
    ClientV {
        client_id: c.client_id,
        secret_hash: c.secret_hash,
        name: c.name,
        redirect_uris: trimmed_lines(c.redirect_uris),
        scopes: c.scopes,
        registration_type: c.registration_type,
    }
}

/// The agent of a row.
pub open spec fn agent_of(a: AgentRowV) -> AgentV {
    AgentV {
        id: a.id,
        owner_user_id: a.owner_user_id,
        name: a.name,
        secret_hash: a.secret_hash,
        scopes: words(a.scopes),
        status: a.status,
        created_at: a.created_at,
    }
}

/// The agents with one more, behind those that are not younger.
pub open spec fn insert_by_age(s: Seq<AgentV>, a: AgentV) -> Seq<AgentV>
    decreases s.len(),
{
    if s.len() == 0 {
        seq![a]
    } else if s.last().created_at <= a.created_at {
        s.push(a)
    } else {
        insert_by_age(s.drop_last(), a).push(s.last())
    }
}

/// The agents of an owner, oldest first; those of one age in the order in which they were stored.
pub open spec fn owned_by_age(rows: Seq<AgentRowV>, owner: Seq<char>) -> Seq<AgentV>
    decreases rows.len(),
{
    if rows.len() == 0 {
        Seq::<AgentV>::empty()
    } else {
        let before = owned_by_age(rows.drop_last(), owner);
        if rows.last().owner_user_id == owner {
            insert_by_age(before, agent_of(rows.last()))
        } else {
            before
        }
    }
}

impl StoreV {
    /// Whether a change is made.
    pub open spec fn accepts(self, c: ChangeV) -> bool {
        self.reachable && tables::admits(self.tables, c)
    }

    /// What the store answers to a change.
    pub open spec fn answer(self, c: ChangeV) -> Result<(), StoreError> {
        if !self.reachable {
            Err(StoreError::Unreachable)
        } else if !tables::admits(self.tables, c) {
            Err(StoreError::Rejected)
        } else {
            Ok(())
        }
    }

    /// The store after a change, which is made or not.
    pub open spec fn step(self, c: ChangeV) -> StoreV {
        if self.accepts(c) {
            StoreV { tables: tables::apply(self.tables, c), journal: self.journal.push(c), ..self }
        } else {
            self
        }
    }

    /// The person with this identifier.
    pub open spec fn with_id(self, id: Seq<char>) -> Option<UserV> {
        if self.reachable {
            tables::first(self.tables.users, tables::user_id(id))
        } else {
            None
        }
    }

    /// The person with this email.
    pub open spec fn with_email(self, email: Seq<char>) -> Option<UserV> {
        if self.reachable {
            tables::first(self.tables.users, tables::user_email(email))
        } else {
            None
        }
    }

    /// The person with this GitHub account.
    pub open spec fn with_github(self, id: Seq<char>) -> Option<UserV> {
        if self.reachable {
            tables::first(self.tables.users, tables::user_github(id))
        } else {
            None
        }
    }

    /// Whether a query for a point in time is answered.
    pub open spec fn answers_at(self, now: u64) -> bool {
        self.reachable && tables::storable(now)
    }

    /// The person whose session this is: none where the session has expired or the person is
    /// disabled.
    pub open spec fn of_session(self, sid: Seq<char>, now: u64) -> Option<UserV> {
        if self.answers_at(now) {
            match tables::first(self.tables.sessions, live_session(sid, now)) {
                Some(s) => tables::first(self.tables.users, enabled_user(s.user_id)),
                None => None,
            }
        } else {
            None
        }
    }

    /// The client with this identifier.
    pub open spec fn with_client(self, id: Seq<char>) -> Option<ClientV> {
        if self.reachable {
            match tables::first(self.tables.clients, tables::client_id(id)) {
                Some(c) => Some(client_of(c)),
                None => None,
            }
        } else {
            None
        }
    }

    /// What the person decided about the client and the scope.
    pub open spec fn decision(self, user_id: Seq<char>, client_id: Seq<char>, scope: Seq<char>) -> Option<Seq<char>> {
        if self.reachable {
            match tables::first(self.tables.consents, tables::consent_key(user_id, client_id, scope)) {
                Some(c) => Some(c.decision),
                None => None,
            }
        } else {
            None
        }
    }

    /// The agent with this identifier.
    pub open spec fn with_agent(self, id: Seq<char>) -> Option<AgentV> {
        if self.reachable {
            match tables::first(self.tables.agents, tables::agent_id(id)) {
                Some(a) => Some(agent_of(a)),
                None => None,
            }
        } else {
            None
        }
    }

    /// The authorization code that can still be redeemed.
    pub open spec fn redeemable(self, code: Seq<char>, now: u64) -> Option<AuthCodeV> {
        if self.answers_at(now) {
            match tables::first(self.tables.codes, live_code(code, now)) {
                Some(c) => Some(c.code),
                None => None,
            }
        } else {
            None
        }
    }

    /// The refresh token that can still be replaced.
    pub open spec fn refreshable(self, token: Seq<char>, now: u64) -> Option<RefreshTokenV> {
        if self.answers_at(now) {
            tables::first(self.tables.refreshes, live_refresh(token, now))
        } else {
            None
        }
    }

    /// What the store answers to a query for a point in time.
    pub open spec fn refusal(self) -> StoreError {
        if self.reachable {
            StoreError::Rejected
        } else {
            StoreError::Unreachable
        }
    }
}

/// The tables and the journal of the changes made to them.
pub struct Store {
    users: Vec<User>,
    sessions: Vec<Session>,
    clients: Vec<ClientRow>,
    codes: Vec<CodeRow>,
    consents: Vec<Consent>,
    refreshes: Vec<RefreshToken>,
    agents: Vec<AgentRow>,
    promoted: Vec<String>,
    journal: Vec<Change>,
    reachable: bool,
}

impl View for Store {
    type V = StoreV;

    closed spec fn view(&self) -> StoreV {
        StoreV {
            tables: Tables {
                users: rows::seq_view(self.users@),
                sessions: rows::seq_view(self.sessions@),
                clients: rows::seq_view(self.clients@),
                codes: rows::seq_view(self.codes@),
                consents: rows::seq_view(self.consents@),
                refreshes: rows::seq_view(self.refreshes@),
                agents: rows::seq_view(self.agents@),
                promoted: text::list_view(self.promoted@).to_set(),
            },
            journal: rows::seq_view(self.journal@),
            reachable: self.reachable,
        }
    }
}

/// Whether an optional text is this one.
fn opt_is(o: &Option<String>, s: &str) -> (r: bool)
    ensures
        r == (text::opt_view(*o) == Some(s@)),
{
    match o {
        Some(t) => text::same(t.as_str(), s),
        None => false,
    }
}

/// Whether two people cannot be stored together.
fn clashes(a: &User, b: &User) -> (r: bool)
    ensures
        r == tables::clash(a@, b@),
{
    text::same(a.id.as_str(), b.id.as_str()) || text::same(a.email.as_str(), b.email.as_str()) || match &b.github_id {
        Some(g) => opt_is(&a.github_id, g.as_str()),
        None => false,
    }
}

/// Whether a decision is about this person, client and scope.
fn is_about(c: &Consent, user_id: &str, client_id: &str, scope: &str) -> (r: bool)
    ensures
        r == tables::consent_key(user_id@, client_id@, scope@)(c@),
{
    text::same(c.user_id.as_str(), user_id) && text::same(c.client_id.as_str(), client_id) && text::same(
        c.scope.as_str(),
        scope,
    )
}

// ---------------------------------------------------------------------------------------------
// Finding and changing rows
// ---------------------------------------------------------------------------------------------

/// Whether a place is that of the first row that a predicate picks.
spec fn found<T: View>(rows: Seq<T>, p: spec_fn(T::V) -> bool, r: Option<usize>) -> bool {
    match r {
        Some(i) => i < rows.len() && tables::first(rows::seq_view(rows), p) == Some(rows[i as int]@),
        None => tables::first(rows::seq_view(rows), p) is None,
    }
}

/// The place of the first row that passes a test; the test tells what the predicate picks.
fn find_row<T: View>(
    rows: &Vec<T>,
    Ghost(p): Ghost<spec_fn(T::V) -> bool>,
    test: impl Fn(&T) -> bool,
) -> (r: Option<usize>)
    requires
        forall|x: &T| #[trigger] test.requires((x,)),
        forall|x: &T, b: bool| #[trigger] test.ensures((x,), b) ==> b == p(x@),
    ensures
        found(rows@, p, r),
{
    let mut i: usize = 0;
    while i < rows.len()
        invariant
            i <= rows@.len(),
            forall|x: &T| #[trigger] test.requires((x,)),
            forall|x: &T, b: bool| #[trigger] test.ensures((x,), b) ==> b == p(x@),
            forall|j: int| 0 <= j < i ==> !p(#[trigger] rows::seq_view(rows@)[j]),
        decreases rows.len() - i,
    {
        assert(rows::seq_view(rows@)[i as int] == rows@[i as int]@);
        if test(&rows[i]) {
            proof {
                tables::first_is(rows::seq_view(rows@), p, i as int);
            }
            return Some(i);
        }
        i += 1;
    }
    proof {
        tables::first_none(rows::seq_view(rows@), p);
    }
    None
}

/// Changes every row.
fn change_rows<T: View>(
    rows: &mut Vec<T>,
    Ghost(f): Ghost<spec_fn(T::V) -> T::V>,
    change: impl Fn(&T) -> T,
)
    requires
        forall|x: &T| #[trigger] change.requires((x,)),
        forall|x: &T, y: T| #[trigger] change.ensures((x,), y) ==> y@ == f(x@),
    ensures
        rows::seq_view(final(rows)@) == rows::seq_view(old(rows)@).map_values(f),
{
    let mut i: usize = 0;
    while i < rows.len()
        invariant
            i <= rows@.len(),
            rows@.len() == old(rows)@.len(),
            forall|x: &T| #[trigger] change.requires((x,)),
            forall|x: &T, y: T| #[trigger] change.ensures((x,), y) ==> y@ == f(x@),
            forall|j: int| 0 <= j < i ==> (#[trigger] rows@[j])@ == f(old(rows)@[j]@),
            forall|j: int| i <= j < rows@.len() ==> #[trigger] rows@[j] == old(rows)@[j],
        decreases rows.len() - i,
    {
        let row: T = change(&rows[i]);
        rows.set(i, row);
        i += 1;
    }
    assert(rows::seq_view(rows@) =~= rows::seq_view(old(rows)@).map_values(f));
}

/// The place of the person with this identifier.
fn find_user_id(rows: &Vec<User>, id: &str) -> (r: Option<usize>)
    ensures
        found(rows@, tables::user_id(id@), r),
{
    let test = |u: &User| -> (b: bool)
        ensures
            b == (u@.id == id@),
    {
        text::same(u.id.as_str(), id)
    };
    find_row(rows, Ghost(tables::user_id(id@)), test)
}

/// The place of the person with this email.
fn find_user_email(rows: &Vec<User>, email: &str) -> (r: Option<usize>)
    ensures
        found(rows@, tables::user_email(email@), r),
{
    let test = |u: &User| -> (b: bool)
        ensures
            b == (u@.email == email@),
    {
        text::same(u.email.as_str(), email)
    };
    find_row(rows, Ghost(tables::user_email(email@)), test)
}

/// The place of the person with this GitHub account.
fn find_user_github(rows: &Vec<User>, id: &str) -> (r: Option<usize>)
    ensures
        found(rows@, tables::user_github(id@), r),
{
    let test = |u: &User| -> (b: bool)
        ensures
            b == (u@.github_id == Some(id@)),
    {
        opt_is(&u.github_id, id)
    };
    find_row(rows, Ghost(tables::user_github(id@)), test)
}

/// The place of a person that cannot be stored together with this one.
fn find_clash(rows: &Vec<User>, u: &User) -> (r: Option<usize>)
    ensures
        found(rows@, tables::clashing(u@), r),
{
    let test = |x: &User| -> (b: bool)
        ensures
            b == (tables::clash(x@, u@)),
    {
        clashes(x, u)
    };
    find_row(rows, Ghost(tables::clashing(u@)), test)
}

/// The place of another person with this GitHub account.
fn find_other_holder(rows: &Vec<User>, id: &str, github_id: &str) -> (r: Option<usize>)
    ensures
        found(rows@, tables::other_holder(id@, github_id@), r),
{
    let test = |u: &User| -> (b: bool)
        ensures
            b == (u@.github_id == Some(github_id@) && u@.id != id@),
    {
        opt_is(&u.github_id, github_id) && !text::same(u.id.as_str(), id)
    };
    find_row(rows, Ghost(tables::other_holder(id@, github_id@)), test)
}

/// The place of the person with this identifier, if not disabled.
fn find_enabled(rows: &Vec<User>, id: &str) -> (r: Option<usize>)
    ensures
        found(rows@, enabled_user(id@), r),
{
    let test = |u: &User| -> (b: bool)
        ensures
            b == (u@.id == id@ && !u@.disabled),
    {
        text::same(u.id.as_str(), id) && !u.disabled
    };
    find_row(rows, Ghost(enabled_user(id@)), test)
}

/// The place of the session with this identifier.
fn find_session(rows: &Vec<Session>, id: &str) -> (r: Option<usize>)
    ensures
        found(rows@, tables::session_id(id@), r),
{
    let test = |s: &Session| -> (b: bool)
        ensures
            b == (s@.id == id@),
    {
        text::same(s.id.as_str(), id)
    };
    find_row(rows, Ghost(tables::session_id(id@)), test)
}

/// The place of the session with this identifier, if not expired.
fn find_live_session(rows: &Vec<Session>, id: &str, now: u64) -> (r: Option<usize>)
    ensures
        found(rows@, live_session(id@, now), r),
{
    let test = |s: &Session| -> (b: bool)
        ensures
            b == (s@.id == id@ && s@.expires_at > now),
    {
        text::same(s.id.as_str(), id) && s.expires_at > now
    };
    find_row(rows, Ghost(live_session(id@, now)), test)
}

/// The place of the client with this identifier.
fn find_client(rows: &Vec<ClientRow>, id: &str) -> (r: Option<usize>)
    ensures
        found(rows@, tables::client_id(id@), r),
{
    let test = |c: &ClientRow| -> (b: bool)
        ensures
            b == (c@.client_id == id@),
    {
        text::same(c.client_id.as_str(), id)
    };
    find_row(rows, Ghost(tables::client_id(id@)), test)
}

/// The place of this authorization code.
fn find_code(rows: &Vec<CodeRow>, code: &str) -> (r: Option<usize>)
    ensures
        found(rows@, tables::code_text(code@), r),
{
    let test = |c: &CodeRow| -> (b: bool)
        ensures
            b == (c@.code.code == code@),
    {
        text::same(c.code.code.as_str(), code)
    };
    find_row(rows, Ghost(tables::code_text(code@)), test)
}

/// The place of this authorization code, if neither redeemed nor expired.
fn find_live_code(rows: &Vec<CodeRow>, code: &str, now: u64) -> (r: Option<usize>)
    ensures
        found(rows@, live_code(code@, now), r),
{
    let test = |c: &CodeRow| -> (b: bool)
        ensures
            b == (c@.code.code == code@ && !c@.used && c@.code.expires_at > now),
    {
        text::same(c.code.code.as_str(), code) && !c.used && c.code.expires_at > now
    };
    find_row(rows, Ghost(live_code(code@, now)), test)
}

/// The place of the decision of this person about this client and scope.
fn find_consent(rows: &Vec<Consent>, user_id: &str, client_id: &str, scope: &str) -> (r: Option<usize>)
    ensures
        found(rows@, tables::consent_key(user_id@, client_id@, scope@), r),
{
    let test = |c: &Consent| -> (b: bool)
        ensures
            b == (tables::consent_key(user_id@, client_id@, scope@)(c@)),
    {
        is_about(c, user_id, client_id, scope)
    };
    find_row(rows, Ghost(tables::consent_key(user_id@, client_id@, scope@)), test)
}

/// The place of this refresh token.
fn find_refresh(rows: &Vec<RefreshToken>, token: &str) -> (r: Option<usize>)
    ensures
        found(rows@, tables::refresh_text(token@), r),
{
    let test = |t: &RefreshToken| -> (b: bool)
        ensures
            b == (t@.token == token@),
    {
        text::same(t.token.as_str(), token)
    };
    find_row(rows, Ghost(tables::refresh_text(token@)), test)
}

/// The place of this refresh token, if neither replaced nor expired.
fn find_live_refresh(rows: &Vec<RefreshToken>, token: &str, now: u64) -> (r: Option<usize>)
    ensures
        found(rows@, live_refresh(token@, now), r),
{
    let test = |t: &RefreshToken| -> (b: bool)
        ensures
            b == (t@.token == token@ && t@.expires_at > now && t@.rotated_to is None),
    {
        text::same(t.token.as_str(), token) && t.expires_at > now && t.rotated_to.is_none()
    };
    find_row(rows, Ghost(live_refresh(token@, now)), test)
}

/// The place of the agent with this identifier.
fn find_agent(rows: &Vec<AgentRow>, id: &str) -> (r: Option<usize>)
    ensures
        found(rows@, tables::agent_id(id@), r),
{
    let test = |a: &AgentRow| -> (b: bool)
        ensures
            b == (a@.id == id@),
    {
        text::same(a.id.as_str(), id)
    };
    find_row(rows, Ghost(tables::agent_id(id@)), test)
}

/// The place of the agent with this identifier and owner.
fn find_owned_agent(rows: &Vec<AgentRow>, id: &str, owner: &str) -> (r: Option<usize>)
    ensures
        found(rows@, owned_agent(id@, owner@), r),
{
    let test = |a: &AgentRow| -> (b: bool)
        ensures
            b == (a@.id == id@ && a@.owner_user_id == owner@),
    {
        text::same(a.id.as_str(), id) && text::same(a.owner_user_id.as_str(), owner)
    };
    find_row(rows, Ghost(owned_agent(id@, owner@)), test)
}

/// Gives a person another password hash.
fn set_hash(rows: &mut Vec<User>, id: &str, hash: &Option<String>)
    ensures
        rows::seq_view(final(rows)@) == rows::seq_view(old(rows)@).map_values(
            |u: UserV| tables::with_hash(u, id@, text::opt_view(*hash)),
        ),
{
    let change = |u: &User| -> (r: User)
        ensures
            r@ == tables::with_hash(u@, id@, text::opt_view(*hash)),
    {
        let mut row: User = u.clone();
        if text::same(u.id.as_str(), id) {
            row.password_hash = text::copy_opt(hash);
        }
        row
    };
    change_rows(rows, Ghost(|u: UserV| tables::with_hash(u, id@, text::opt_view(*hash))), change);
}

/// Makes a person an administrator.
fn promote(rows: &mut Vec<User>, email: &str)
    ensures
        rows::seq_view(final(rows)@) == rows::seq_view(old(rows)@).map_values(
            |u: UserV| tables::promoted(u, email@),
        ),
{
    let change = |u: &User| -> (r: User)
        ensures
            r@ == tables::promoted(u@, email@),
    {
        let mut row: User = u.clone();
        if text::same(u.email.as_str(), email) {
            row.is_admin = true;
        }
        row
    };
    change_rows(rows, Ghost(|u: UserV| tables::promoted(u, email@)), change);
}

/// Puts a text on a list, unless it is there.
fn remember(list: &mut Vec<String>, s: &str)
    ensures
        text::list_view(final(list)@).to_set() == text::list_view(old(list)@).to_set().insert(s@),
{
    let ghost before = text::list_view(list@);
    if text::list_contains(list, s) {
        assert(before.to_set().insert(s@) =~= before.to_set());
    } else {
        list.push(s.to_owned());
        let ghost after = text::list_view(list@);
        proof {
            assert(after =~= before.push(s@));
            assert forall|x: Seq<char>| before.to_set().insert(s@).contains(x) implies after.to_set().contains(x) by {
                if before.contains(x) {
                    let k = choose|k: int| 0 <= k < before.len() && before[k] == x;
                    assert(after[k] == x);
                } else {
                    assert(after[before.len() as int] == x);
                }
            }
            assert(after.to_set() =~= before.to_set().insert(s@));
        }
    }
}

/// Gives a person a GitHub account.
fn link(rows: &mut Vec<User>, id: &str, github_id: &str)
    ensures
        rows::seq_view(final(rows)@) == rows::seq_view(old(rows)@).map_values(
            |u: UserV| tables::linked(u, id@, github_id@),
        ),
{
    let change = |u: &User| -> (r: User)
        ensures
            r@ == tables::linked(u@, id@, github_id@),
    {
        let mut row: User = u.clone();
        if text::same(u.id.as_str(), id) {
            row.github_id = Some(github_id.to_owned());
        }
        row
    };
    change_rows(rows, Ghost(|u: UserV| tables::linked(u, id@, github_id@)), change);
}

/// Marks a code as redeemed.
fn redeem(rows: &mut Vec<CodeRow>, code: &str)
    ensures
        rows::seq_view(final(rows)@) == rows::seq_view(old(rows)@).map_values(
            |c: CodeRowV| tables::redeemed(c, code@),
        ),
{
    let change = |c: &CodeRow| -> (r: CodeRow)
        ensures
            r@ == tables::redeemed(c@, code@),
    {
        let mut row: CodeRow = c.clone();
        if text::same(c.code.code.as_str(), code) {
            row.used = true;
        }
        row
    };
    change_rows(rows, Ghost(|c: CodeRowV| tables::redeemed(c, code@)), change);
}

/// Gives a decision another outcome.
fn decide(rows: &mut Vec<Consent>, d: &Consent)
    ensures
        rows::seq_view(final(rows)@) == rows::seq_view(old(rows)@).map_values(
            |c: ConsentV| tables::decided(c, d@),
        ),
{
    let change = |c: &Consent| -> (r: Consent)
        ensures
            r@ == tables::decided(c@, d@),
    {
        let mut row: Consent = c.clone();
        if is_about(c, d.user_id.as_str(), d.client_id.as_str(), d.scope.as_str()) {
            row.decision = d.decision.clone();
            row.updated_at = d.updated_at;
        }
        row
    };
    change_rows(rows, Ghost(|c: ConsentV| tables::decided(c, d@)), change);
}

/// Marks a refresh token as replaced.
fn rotate(rows: &mut Vec<RefreshToken>, token: &str, replacement: &str)
    ensures
        rows::seq_view(final(rows)@) == rows::seq_view(old(rows)@).map_values(
            |t: RefreshTokenV| tables::rotated(t, token@, replacement@),
        ),
{
    let change = |t: &RefreshToken| -> (r: RefreshToken)
        ensures
            r@ == tables::rotated(t@, token@, replacement@),
    {
        let mut row: RefreshToken = t.clone();
        if text::same(t.token.as_str(), token) {
            row.rotated_to = Some(replacement.to_owned());
        }
        row
    };
    change_rows(rows, Ghost(|t: RefreshTokenV| tables::rotated(t, token@, replacement@)), change);
}

/// Gives an agent of this owner another status.
fn set_status(rows: &mut Vec<AgentRow>, id: &str, owner: &str, status: &str)
    ensures
        rows::seq_view(final(rows)@) == rows::seq_view(old(rows)@).map_values(
            |a: AgentRowV| tables::with_status(a, id@, owner@, status@),
        ),
{
    let change = |a: &AgentRow| -> (r: AgentRow)
        ensures
            r@ == tables::with_status(a@, id@, owner@, status@),
    {
        let mut row: AgentRow = a.clone();
        if text::same(a.id.as_str(), id) && text::same(a.owner_user_id.as_str(), owner) {
            row.status = status.to_owned();
        }
        row
    };
    change_rows(rows, Ghost(|a: AgentRowV| tables::with_status(a, id@, owner@, status@)), change);
}

/// Marks an agent as seen.
fn touch(rows: &mut Vec<AgentRow>, id: &str, at: u64)
    ensures
        rows::seq_view(final(rows)@) == rows::seq_view(old(rows)@).map_values(
            |a: AgentRowV| tables::seen(a, id@, at),
        ),
{
    let change = |a: &AgentRow| -> (r: AgentRow)
        ensures
            r@ == tables::seen(a@, id@, at),
    {
        let mut row: AgentRow = a.clone();
        if text::same(a.id.as_str(), id) {
            row.last_seen = Some(at);
        }
        row
    };
    change_rows(rows, Ghost(|a: AgentRowV| tables::seen(a, id@, at)), change);
}

/// The words of a text.
fn words_of(s: &str) -> (r: Vec<String>)
    ensures
        text::list_view(r@) == words(s@),
{
    let test = |w: &String| -> (b: bool)
        ensures
            b == (w@.len() > 0),
    {
        w.as_str().unicode_len() > 0
    };
    text::keep(&text::split_on(s, ' '), Ghost(|w: Seq<char>| w.len() > 0), test)
}

/// The lines of a text, trimmed, where something is left of them.
fn lines_of(s: &str) -> (r: Vec<String>)
    ensures
        text::list_view(r@) == trimmed_lines(s@),
{
    let pieces: Vec<String> = text::split_on(s, '\n');
    let mut lines: Vec<String> = Vec::new();
    let mut i: usize = 0;
    while i < pieces.len()
        invariant
            i <= pieces@.len(),
            lines@.len() == i,
            forall|j: int| 0 <= j < i ==> (#[trigger] lines@[j])@ == text::trimmed(pieces@[j]@),
        decreases pieces.len() - i,
    {
        lines.push(text::trim(pieces[i].as_str()));
        i += 1;
    }
    assert(text::list_view(lines@) =~= text::split(s@, '\n').map_values(|l: Seq<char>| text::trimmed(l)));
    let test = |l: &String| -> (b: bool)
        ensures
            b == (l@.len() > 0),
    {
        l.as_str().unicode_len() > 0
    };
    text::keep(&lines, Ghost(|l: Seq<char>| l.len() > 0), test)
}

/// The client of a row.
fn to_client(c: &ClientRow) -> (r: Client)
    ensures
        r@ == client_of(c@),
{
    Client {
        client_id: c.client_id.clone(),
        secret_hash: text::copy_opt(&c.secret_hash),
        name: c.name.clone(),
        redirect_uris: lines_of(c.redirect_uris.as_str()),
        scopes: c.scopes.clone(),
        registration_type: c.registration_type.clone(),
    }
}

/// The agent of a row.
fn to_agent(a: &AgentRow) -> (r: Agent)
    ensures
        r@ == agent_of(a@),
{
    Agent {
        id: a.id.clone(),
        owner_user_id: a.owner_user_id.clone(),
        name: a.name.clone(),
        secret_hash: a.secret_hash.clone(),
        scopes: words_of(a.scopes.as_str()),
        status: a.status.clone(),
        created_at: a.created_at,
    }
}

/// Where an agent stands among those that are not older and those that are: behind `k`.
proof fn insert_by_age_at(s: Seq<AgentV>, a: AgentV, k: int)
    requires
        0 <= k <= s.len(),
        k > 0 ==> s[k - 1].created_at <= a.created_at,
        forall|j: int| k <= j < s.len() ==> (#[trigger] s[j]).created_at > a.created_at,
    ensures
        insert_by_age(s, a) == s.insert(k, a),
    decreases s.len(),
{
    if s.len() == 0 {
        assert(s.insert(k, a) =~= seq![a]);
    } else if k == s.len() {
        assert(s.insert(k, a) =~= s.push(a));
    } else {
        assert(s.last() == s[s.len() - 1]);
        insert_by_age_at(s.drop_last(), a, k);
        assert(s.insert(k, a) =~= s.drop_last().insert(k, a).push(s.last()));
    }
}

/// Puts an agent behind those that are not younger.
fn put_by_age(v: &mut Vec<Agent>, a: Agent)
    ensures
        rows::seq_view(final(v)@) == insert_by_age(rows::seq_view(old(v)@), a@),
{
    let mut k: usize = v.len();
    while k > 0 && v[k - 1].created_at > a.created_at
        invariant
            k <= v@.len(),
            v@ == old(v)@,
            forall|j: int| k <= j < v@.len() ==> (#[trigger] v@[j]).created_at > a.created_at,
        decreases k,
    {
        k -= 1;
    }
    let ghost before = rows::seq_view(v@);
    let ghost kept = a@;
    proof {
        assert forall|j: int| k <= j < before.len() implies (#[trigger] before[j]).created_at > kept.created_at by {
            assert(v@[j].created_at > a.created_at);
        }
        insert_by_age_at(before, kept, k as int);
    }
    v.insert(k, a);
    assert(rows::seq_view(v@) =~= before.insert(k as int, kept));
}

impl Store {
    /// A store with empty tables.
    pub fn new() -> (r: Store)
        ensures
            r@.reachable,
            r@.journal.len() == 0,
            r@.tables == (Tables {
                users: Seq::empty(),
                sessions: Seq::empty(),
                clients: Seq::empty(),
                codes: Seq::empty(),
                consents: Seq::empty(),
                refreshes: Seq::empty(),
                agents: Seq::empty(),
                promoted: Set::empty(),
            }),
            tables::wf(r@.tables),
    {
        let r: Store = Store::load(
            Vec::new(),
            Vec::new(),
            Vec::new(),
            Vec::new(),
            Vec::new(),
            Vec::new(),
            Vec::new(),
            Vec::new(),
        );
        assert(r@.tables =~= Tables {
            users: Seq::empty(),
            sessions: Seq::empty(),
            clients: Seq::empty(),
            codes: Seq::empty(),
            consents: Seq::empty(),
            refreshes: Seq::empty(),
            agents: Seq::empty(),
            promoted: Set::empty(),
        });
        r
    }

    /// A store with these tables; `promoted` are the emails of those who were ever promoted.
    pub fn load(
        users: Vec<User>,
        sessions: Vec<Session>,
        clients: Vec<ClientRow>,
        codes: Vec<CodeRow>,
        consents: Vec<Consent>,
        refreshes: Vec<RefreshToken>,
        agents: Vec<AgentRow>,
        promoted: Vec<String>,
    ) -> (r: Store)
        ensures
            r@.reachable,
            r@.journal.len() == 0,
            r@.tables.users == rows::seq_view(users@),
            r@.tables.sessions == rows::seq_view(sessions@),
            r@.tables.clients == rows::seq_view(clients@),
            r@.tables.codes == rows::seq_view(codes@),
            r@.tables.consents == rows::seq_view(consents@),
            r@.tables.refreshes == rows::seq_view(refreshes@),
            r@.tables.agents == rows::seq_view(agents@),
            r@.tables.promoted == text::list_view(promoted@).to_set(),
    {
        Store {
            users,
            sessions,
            clients,
            codes,
            consents,
            refreshes,
            agents,
            promoted,
            journal: Vec::new(),
            reachable: true,
        }
    }

    /// Says whether the store can be reached.
    pub fn set_reachable(&mut self, reachable: bool)
        ensures
            final(self)@ == (StoreV { reachable: reachable, ..old(self)@ }),
    {
        self.reachable = reachable;
    }

    /// Takes the changes that were made since this was last done.
    pub fn take_journal(&mut self) -> (r: Vec<Change>)
        ensures
            rows::seq_view(r@) == old(self)@.journal,
            final(self)@ == (StoreV { journal: Seq::empty(), ..old(self)@ }),
    {
        let mut out: Vec<Change> = Vec::new();
        std::mem::swap(&mut out, &mut self.journal);
        assert(rows::seq_view(self.journal@) =~= Seq::<ChangeV>::empty());
        out
    }

    /// Whether the tables take a change.
    fn takes(&self, c: &Change) -> (r: bool)
        ensures
            r == tables::admits(self@.tables, c@),
    {
        match c {
            Change::InsertUser { user, created_at } => storable(*created_at) && find_clash(&self.users, user).is_none(),
            Change::LinkGithub { user_id, github_id } => find_user_id(&self.users, user_id.as_str()).is_none()
                || find_other_holder(&self.users, user_id.as_str(), github_id.as_str()).is_none(),
            Change::InsertSession { session } => storable(session.created_at) && storable(session.expires_at)
                && find_session(&self.sessions, session.id.as_str()).is_none(),
            Change::InsertClient { client } => storable(client.created_at) && find_client(
                &self.clients,
                client.client_id.as_str(),
            ).is_none(),
            Change::InsertAuthCode { auth_code: code } => storable(code.issued_at) && storable(code.expires_at) && find_code(
                &self.codes,
                code.code.as_str(),
            ).is_none(),
            Change::UpsertConsent { consent } => storable(consent.updated_at),
            Change::InsertRefresh { refresh: token } => storable(token.issued_at) && storable(token.expires_at)
                && find_refresh(&self.refreshes, token.token.as_str()).is_none(),
            Change::InsertAudit { entry } => storable(entry.at),
            Change::InsertAgent { agent } => storable(agent.created_at) && find_agent(
                &self.agents,
                agent.id.as_str(),
            ).is_none(),
            Change::TouchAgent { id, at } => storable(*at),
            _ => true,
        }
    }
}

/// The current time in seconds since the start of 1970: a reading of the clock, of which nothing is
/// stated, as the time that `now_epoch` makes of it.
pub fn tokens_now() -> (r: u64)
    ensures
        exists|reading: Option<u64>| r == #[trigger] crate::tokens::epoch_of(reading),
{
    crate::tokens::now_epoch()
}

/// Whether a point in time can be stored.
fn storable(t: u64) -> (r: bool)
    ensures
        r == tables::storable(t),
{
    t <= i64::MAX as u64
}

/// Leaves out a session.
fn drop_session(sessions: &Vec<Session>, id: &str) -> (r: Vec<Session>)
    ensures
        rows::seq_view(r@) == rows::seq_view(sessions@).filter(|s: SessionV| s.id != id@),
{
    let ghost all = rows::seq_view(sessions@);
    let ghost p = |s: SessionV| s.id != id@;
    let mut out: Vec<Session> = Vec::new();
    let mut i: usize = 0;
    proof {
        reveal(Seq::filter);
        assert(all.take(0) =~= Seq::<SessionV>::empty());
    }
    while i < sessions.len()
        invariant
            i <= sessions@.len(),
            all == rows::seq_view(sessions@),
            p == (|s: SessionV| s.id != id@),
            rows::seq_view(out@) =~= all.take(i as int).filter(p),
        decreases sessions.len() - i,
    {
        let ghost before = out@;
        proof {
            reveal(Seq::filter);
            assert(all.take(i + 1).drop_last() =~= all.take(i as int));
            assert(all.take(i + 1).last() == sessions@[i as int]@);
        }
        if !text::same(sessions[i].id.as_str(), id) {
            out.push(sessions[i].clone());
            assert(rows::seq_view(out@) =~= rows::seq_view(before).push(sessions@[i as int]@));
        }
        i += 1;
    }
    assert(all.take(i as int) =~= all);
    out
}

impl Store {
    /// Makes a change that the tables take.
    fn put(&mut self, c: &Change)
        ensures
            final(self)@ == (StoreV { tables: tables::apply(old(self)@.tables, c@), ..old(self)@ }),
    {
        match c {
            Change::InsertUser { user, created_at } => {
                self.users.push(user.clone());
            },
            Change::SetPasswordHash { user_id, hash } => {
                set_hash(&mut self.users, user_id.as_str(), hash);
            },
            Change::PromoteAdmin { email } => {
                let known = find_user_email(&self.users, email.as_str()).is_some();
                promote(&mut self.users, email.as_str());
                if known {
                    remember(&mut self.promoted, email.as_str());
                }
            },
            Change::LinkGithub { user_id, github_id } => {
                link(&mut self.users, user_id.as_str(), github_id.as_str());
            },
            Change::InsertSession { session } => {
                self.sessions.push(session.clone());
            },
            Change::DeleteSession { id } => {
                self.sessions = drop_session(&self.sessions, id.as_str());
            },
            Change::InsertClient { client } => {
                self.clients.push(client.clone());
            },
            Change::InsertAuthCode { auth_code: code } => {
                self.codes.push(CodeRow { code: code.clone(), used: false });
            },
            Change::MarkCodeUsed { code } => {
                redeem(&mut self.codes, code.as_str());
            },
            Change::UpsertConsent { consent } => {
                let known = find_consent(
                    &self.consents,
                    consent.user_id.as_str(),
                    consent.client_id.as_str(),
                    consent.scope.as_str(),
                ).is_some();
                if known {
                    decide(&mut self.consents, consent);
                } else {
                    self.consents.push(consent.clone());
                }
            },
            Change::InsertRefresh { refresh: token } => {
                self.refreshes.push(token.clone());
            },
            Change::RotateRefresh { token, replacement } => {
                rotate(&mut self.refreshes, token.as_str(), replacement.as_str());
            },
            Change::InsertAudit { entry } => {},
            Change::InsertAgent { agent } => {
                self.agents.push(agent.clone());
            },
            Change::SetAgentStatus { id, owner, status } => {
                set_status(&mut self.agents, id.as_str(), owner.as_str(), status.as_str());
            },
            Change::TouchAgent { id, at } => {
                touch(&mut self.agents, id.as_str(), *at);
            },
        }
        assert(self@.tables =~= tables::apply(old(self)@.tables, c@));
    }

    /// Makes a change and notes it in the journal, if the tables take it.
    fn commit(&mut self, c: Change) -> (r: Result<(), StoreError>)
        ensures
            final(self)@ == old(self)@.step(c@),
            r == old(self)@.answer(c@),
    {
        if !self.reachable {
            return Err(StoreError::Unreachable);
        }
        if !self.takes(&c) {
            return Err(StoreError::Rejected);
        }
        self.put(&c);
        let ghost kept = c@;
        let ghost before = self.journal@;
        self.journal.push(c);
        assert(rows::seq_view(self.journal@) =~= rows::seq_view(before).push(kept));
        Ok(())
    }

    /// The person with this email.
    pub fn user_by_email(&self, email: &str) -> (r: Result<Option<User>, StoreError>)
        ensures
            match r {
                Ok(u) => self@.reachable && rows::opt_row(u) == self@.with_email(email@),
                Err(e) => !self@.reachable && e == StoreError::Unreachable,
            },
    {
        if !self.reachable {
            return Err(StoreError::Unreachable);
        }
        match find_user_email(&self.users, email) {
            Some(i) => Ok(Some(self.users[i].clone())),
            None => Ok(None),
        }
    }

    /// The person with this identifier.
    pub fn user_by_id(&self, id: &str) -> (r: Result<Option<User>, StoreError>)
        ensures
            match r {
                Ok(u) => self@.reachable && rows::opt_row(u) == self@.with_id(id@),
                Err(e) => !self@.reachable && e == StoreError::Unreachable,
            },
    {
        if !self.reachable {
            return Err(StoreError::Unreachable);
        }
        match find_user_id(&self.users, id) {
            Some(i) => Ok(Some(self.users[i].clone())),
            None => Ok(None),
        }
    }

    /// The person with this GitHub account.
    pub fn user_by_github_id(&self, gh_id: &str) -> (r: Result<Option<User>, StoreError>)
        ensures
            match r {
                Ok(u) => self@.reachable && rows::opt_row(u) == self@.with_github(gh_id@),
                Err(e) => !self@.reachable && e == StoreError::Unreachable,
            },
    {
        if !self.reachable {
            return Err(StoreError::Unreachable);
        }
        match find_user_github(&self.users, gh_id) {
            Some(i) => Ok(Some(self.users[i].clone())),
            None => Ok(None),
        }
    }

    /// Stores a new person, who is not disabled.
    pub fn create_user(
        &mut self,
        id: &str,
        email: &str,
        name: &str,
        password_hash: Option<String>,
        github_id: Option<String>,
        is_admin: bool,
        now: u64,
    ) -> (r: Result<(), StoreError>)
        ensures
            final(self)@ == old(self)@.step(
                new_user(id@, email@, name@, text::opt_view(password_hash), text::opt_view(github_id), is_admin, now),
            ),
            r == old(self)@.answer(
                new_user(id@, email@, name@, text::opt_view(password_hash), text::opt_view(github_id), is_admin, now),
            ),
    {
        self.commit(
            Change::InsertUser {
                user: User {
                    id: id.to_owned(),
                    email: email.to_owned(),
                    name: name.to_owned(),
                    password_hash,
                    github_id,
                    is_admin,
                    disabled: false,
                },
                created_at: now,
            },
        )
    }

    /// Gives a person another password hash, or none.
    pub fn set_password_hash(&mut self, user_id: &str, hash: Option<String>) -> (r: Result<(), StoreError>)
        ensures
            final(self)@ == old(self)@.step(
                ChangeV::SetPasswordHash { user_id: user_id@, hash: text::opt_view(hash) },
            ),
            r == old(self)@.answer(ChangeV::SetPasswordHash { user_id: user_id@, hash: text::opt_view(hash) }),
    {
        self.commit(Change::SetPasswordHash { user_id: user_id.to_owned(), hash })
    }

    /// Whether the person with this email was ever promoted.
    pub fn was_promoted(&self, email: &str) -> (r: bool)
        ensures
            r == self@.tables.promoted.contains(email@),
    {
        text::list_contains(&self.promoted, email)
    }

    /// Makes the person with this email an administrator.
    pub fn promote_admin(&mut self, email: &str) -> (r: Result<(), StoreError>)
        ensures
            final(self)@ == old(self)@.step(ChangeV::PromoteAdmin { email: email@ }),
            r == old(self)@.answer(ChangeV::PromoteAdmin { email: email@ }),
    {
        self.commit(Change::PromoteAdmin { email: email.to_owned() })
    }

    /// Gives a person a GitHub account.
    pub fn link_github(&mut self, user_id: &str, github_id: &str) -> (r: Result<(), StoreError>)
        ensures
            final(self)@ == old(self)@.step(ChangeV::LinkGithub { user_id: user_id@, github_id: github_id@ }),
            r == old(self)@.answer(ChangeV::LinkGithub { user_id: user_id@, github_id: github_id@ }),
    {
        self.commit(Change::LinkGithub { user_id: user_id.to_owned(), github_id: github_id.to_owned() })
    }

    /// Stores a new session that lasts for `ttl` seconds; one that would last beyond the largest
    /// time is refused.
    pub fn create_session(&mut self, id: &str, user_id: &str, ttl: u64, ip: &str, now: u64) -> (r: Result<
        (),
        StoreError,
    >)
        ensures
            final(self)@ == old(self)@.step(new_session(id@, user_id@, ttl, ip@, now)),
            r == old(self)@.answer(new_session(id@, user_id@, ttl, ip@, now)),
    {
        self.commit(
            Change::InsertSession {
                session: Session {
                    id: id.to_owned(),
                    user_id: user_id.to_owned(),
                    created_at: now,
                    expires_at: now.saturating_add(ttl),
                    ip: ip.to_owned(),
                },
            },
        )
    }

    /// The person whose session this is.
    pub fn session_user(&self, sid: &str, now: u64) -> (r: Result<Option<User>, StoreError>)
        ensures
            match r {
                Ok(u) => self@.answers_at(now) && rows::opt_row(u) == self@.of_session(sid@, now),
                Err(e) => !self@.answers_at(now) && e == self@.refusal(),
            },
    {
        if !self.reachable {
            return Err(StoreError::Unreachable);
        }
        if !storable(now) {
            return Err(StoreError::Rejected);
        }
        match find_live_session(&self.sessions, sid, now) {
            Some(i) => match find_enabled(&self.users, self.sessions[i].user_id.as_str()) {
                Some(j) => Ok(Some(self.users[j].clone())),
                None => Ok(None),
            },
            None => Ok(None),
        }
    }

    /// Ends a session.
    pub fn delete_session(&mut self, sid: &str) -> (r: Result<(), StoreError>)
        ensures
            final(self)@ == old(self)@.step(ChangeV::DeleteSession { id: sid@ }),
            r == old(self)@.answer(ChangeV::DeleteSession { id: sid@ }),
    {
        self.commit(Change::DeleteSession { id: sid.to_owned() })
    }

    /// Stores a new client. Its redirect URIs stand one to a line.
    pub fn create_client(
        &mut self,
        client_id: &str,
        secret_hash: Option<String>,
        name: &str,
        redirect_uris: &str,
        scopes: &str,
        registration_type: &str,
        now: u64,
    ) -> (r: Result<(), StoreError>)
        ensures
            final(self)@ == old(self)@.step(
                new_client(
                    client_id@,
                    text::opt_view(secret_hash),
                    name@,
                    redirect_uris@,
                    scopes@,
                    registration_type@,
                    now,
                ),
            ),
            r == old(self)@.answer(
                new_client(
                    client_id@,
                    text::opt_view(secret_hash),
                    name@,
                    redirect_uris@,
                    scopes@,
                    registration_type@,
                    now,
                ),
            ),
    {
        self.commit(
            Change::InsertClient {
                client: ClientRow {
                    client_id: client_id.to_owned(),
                    secret_hash,
                    name: name.to_owned(),
                    redirect_uris: redirect_uris.to_owned(),
                    scopes: scopes.to_owned(),
                    registration_type: registration_type.to_owned(),
                    created_at: now,
                },
            },
        )
    }

    /// The client with this identifier.
    pub fn client(&self, client_id: &str) -> (r: Result<Option<Client>, StoreError>)
        ensures
            match r {
                Ok(c) => self@.reachable && rows::opt_row(c) == self@.with_client(client_id@),
                Err(e) => !self@.reachable && e == StoreError::Unreachable,
            },
    {
        if !self.reachable {
            return Err(StoreError::Unreachable);
        }
        match find_client(&self.clients, client_id) {
            Some(i) => Ok(Some(to_client(&self.clients[i]))),
            None => Ok(None),
        }
    }

    /// Stores a new authorization code, not yet redeemed.
    pub fn put_auth_code(&mut self, code: &AuthCode) -> (r: Result<(), StoreError>)
        ensures
            final(self)@ == old(self)@.step(ChangeV::InsertAuthCode { auth_code: code@ }),
            r == old(self)@.answer(ChangeV::InsertAuthCode { auth_code: code@ }),
    {
        self.commit(Change::InsertAuthCode { auth_code: code.clone() })
    }

    /// Redeems an authorization code, if it was neither redeemed before nor has expired.
    pub fn take_auth_code(&mut self, code: &str, now: u64) -> (r: Result<Option<AuthCode>, StoreError>)
        ensures
            match r {
                Ok(c) => old(self)@.answers_at(now) && rows::opt_row(c) == old(self)@.redeemable(code@, now),
                Err(e) => !old(self)@.answers_at(now) && e == old(self)@.refusal(),
            },
            final(self)@ == after_redeeming(old(self)@, code@, now),
    {
        if !self.reachable {
            return Err(StoreError::Unreachable);
        }
        if !storable(now) {
            return Err(StoreError::Rejected);
        }
        match find_live_code(&self.codes, code, now) {
            Some(i) => {
                let found: AuthCode = self.codes[i].code.clone();
                let _ = self.commit(Change::MarkCodeUsed { code: code.to_owned() });
                Ok(Some(found))
            },
            None => Ok(None),
        }
    }

    /// What the person decided about the client and the scope.
    pub fn consent(&self, user_id: &str, client_id: &str, scope: &str) -> (r: Result<Option<String>, StoreError>)
        ensures
            match r {
                Ok(d) => self@.reachable && text::opt_view(d) == self@.decision(user_id@, client_id@, scope@),
                Err(e) => !self@.reachable && e == StoreError::Unreachable,
            },
    {
        if !self.reachable {
            return Err(StoreError::Unreachable);
        }
        match find_consent(&self.consents, user_id, client_id, scope) {
            Some(i) => Ok(Some(self.consents[i].decision.clone())),
            None => Ok(None),
        }
    }

    /// Stores what the person decided about the client and the scope, in place of an earlier
    /// decision.
    pub fn save_consent(&mut self, user_id: &str, client_id: &str, scope: &str, decision: &str, now: u64) -> (r:
        Result<(), StoreError>)
        ensures
            final(self)@ == old(self)@.step(new_consent(user_id@, client_id@, scope@, decision@, now)),
            r == old(self)@.answer(new_consent(user_id@, client_id@, scope@, decision@, now)),
    {
        self.commit(
            Change::UpsertConsent {
                consent: Consent {
                    user_id: user_id.to_owned(),
                    client_id: client_id.to_owned(),
                    scope: scope.to_owned(),
                    decision: decision.to_owned(),
                    updated_at: now,
                },
            },
        )
    }

    /// Stores a new refresh token that lasts for `ttl` seconds.
    pub fn put_refresh(&mut self, token: &str, user_id: &str, client_id: &str, scope: &str, ttl: u64, now: u64) -> (r:
        Result<(), StoreError>)
        ensures
            final(self)@ == old(self)@.step(new_refresh(token@, user_id@, client_id@, scope@, ttl, now)),
            r == old(self)@.answer(new_refresh(token@, user_id@, client_id@, scope@, ttl, now)),
    {
        self.commit(
            Change::InsertRefresh {
                refresh: RefreshToken {
                    token: token.to_owned(),
                    user_id: user_id.to_owned(),
                    client_id: client_id.to_owned(),
                    scope: scope.to_owned(),
                    issued_at: now,
                    expires_at: now.saturating_add(ttl),
                    rotated_to: None,
                },
            },
        )
    }

    /// Replaces a refresh token, if it was neither replaced before nor has expired, and gives the
    /// person, the client and the scope that it was for.
    pub fn rotate_refresh(&mut self, token: &str, replacement: &str, now: u64) -> (r: Result<
        Option<(String, String, String)>,
        StoreError,
    >)
        ensures
            match r {
                Ok(Some(d)) => old(self)@.refreshable(token@, now) matches Some(t) && d.0@ == t.user_id && d.1@
                    == t.client_id && d.2@ == t.scope,
                Ok(None) => old(self)@.answers_at(now) && old(self)@.refreshable(token@, now) is None,
                Err(e) => !old(self)@.answers_at(now) && e == old(self)@.refusal(),
            },
            final(self)@ == after_rotating(old(self)@, token@, replacement@, now),
    {
        if !self.reachable {
            return Err(StoreError::Unreachable);
        }
        if !storable(now) {
            return Err(StoreError::Rejected);
        }
        match find_live_refresh(&self.refreshes, token, now) {
            Some(i) => {
                let user_id: String = self.refreshes[i].user_id.clone();
                let client_id: String = self.refreshes[i].client_id.clone();
                let scope: String = self.refreshes[i].scope.clone();
                let _ = self.commit(
                    Change::RotateRefresh { token: token.to_owned(), replacement: replacement.to_owned() },
                );
                Ok(Some((user_id, client_id, scope)))
            },
            None => Ok(None),
        }
    }

    /// Adds an entry to the audit log.
    pub fn audit(&mut self, event: &str, user_id: Option<String>, detail: Value, now: u64) -> (r: Result<
        (),
        StoreError,
    >)
        ensures
            final(self)@ == old(self)@.step(
                new_entry(event@, text::opt_view(user_id), json::json_view(detail), now),
            ),
            r == old(self)@.answer(new_entry(event@, text::opt_view(user_id), json::json_view(detail), now)),
    {
        self.commit(
            Change::InsertAudit {
                entry: AuditEntry { at: now, event: event.to_owned(), user_id, detail: json::json_to_text(&detail) },
            },
        )
    }

    /// Stores a new agent, which is active.
    pub fn create_agent(
        &mut self,
        id: &str,
        owner_user_id: &str,
        name: &str,
        secret_hash: &str,
        scopes: &Vec<String>,
        metadata: &Value,
        now: u64,
    ) -> (r: Result<(), StoreError>)
        ensures
            final(self)@ == old(self)@.step(
                new_agent(
                    id@,
                    owner_user_id@,
                    name@,
                    secret_hash@,
                    text::list_view(scopes@),
                    json::json_view(*metadata),
                    now,
                ),
            ),
            r == old(self)@.answer(
                new_agent(
                    id@,
                    owner_user_id@,
                    name@,
                    secret_hash@,
                    text::list_view(scopes@),
                    json::json_view(*metadata),
                    now,
                ),
            ),
    {
        self.commit(
            Change::InsertAgent {
                agent: AgentRow {
                    id: id.to_owned(),
                    owner_user_id: owner_user_id.to_owned(),
                    name: name.to_owned(),
                    secret_hash: secret_hash.to_owned(),
                    scopes: text::join_list(scopes, " "),
                    status: "active".to_owned(),
                    created_at: now,
                    metadata: json::json_to_text(metadata),
                    last_seen: None,
                },
            },
        )
    }

    /// The agent with this identifier.
    pub fn agent_by_id(&self, id: &str) -> (r: Result<Option<Agent>, StoreError>)
        ensures
            match r {
                Ok(a) => self@.reachable && rows::opt_row(a) == self@.with_agent(id@),
                Err(e) => !self@.reachable && e == StoreError::Unreachable,
            },
    {
        if !self.reachable {
            return Err(StoreError::Unreachable);
        }
        match find_agent(&self.agents, id) {
            Some(i) => Ok(Some(to_agent(&self.agents[i]))),
            None => Ok(None),
        }
    }

    /// The agents of an owner, oldest first.
    pub fn agents_for_owner(&self, owner_user_id: &str) -> (r: Result<Vec<Agent>, StoreError>)
        ensures
            match r {
                Ok(v) => self@.reachable && rows::seq_view(v@) == owned_by_age(self@.tables.agents, owner_user_id@),
                Err(e) => !self@.reachable && e == StoreError::Unreachable,
            },
    {
        if !self.reachable {
            return Err(StoreError::Unreachable);
        }
        let ghost all = self@.tables.agents;
        let mut out: Vec<Agent> = Vec::new();
        let mut i: usize = 0;
        assert(all.take(0) =~= Seq::<AgentRowV>::empty());
        assert(rows::seq_view(out@) =~= Seq::<AgentV>::empty());
        while i < self.agents.len()
            invariant
                i <= self.agents@.len(),
                all == rows::seq_view(self.agents@),
                rows::seq_view(out@) == owned_by_age(all.take(i as int), owner_user_id@),
            decreases self.agents.len() - i,
        {
            proof {
                assert(all.take(i + 1).drop_last() =~= all.take(i as int));
                assert(all.take(i + 1).last() == self.agents@[i as int]@);
            }
            if text::same(self.agents[i].owner_user_id.as_str(), owner_user_id) {
                put_by_age(&mut out, to_agent(&self.agents[i]));
            }
            i += 1;
        }
        assert(all.take(i as int) =~= all);
        Ok(out)
    }

    /// Gives an agent another status, if the owner is its owner; says whether there is such an agent.
    pub fn set_agent_status(&mut self, id: &str, owner: &str, status: &str) -> (r: Result<bool, StoreError>)
        ensures
            match r {
                Ok(b) => old(self)@.reachable && b == (tables::first(
                    old(self)@.tables.agents,
                    owned_agent(id@, owner@),
                ) is Some),
                Err(e) => !old(self)@.reachable && e == StoreError::Unreachable,
            },
            final(self)@ == old(self)@.step(ChangeV::SetAgentStatus { id: id@, owner: owner@, status: status@ }),
    {
        let known = find_owned_agent(&self.agents, id, owner).is_some();
        match self.commit(
            Change::SetAgentStatus { id: id.to_owned(), owner: owner.to_owned(), status: status.to_owned() },
        ) {
            Ok(()) => Ok(known),
            Err(e) => Err(e),
        }
    }

    /// Notes that an agent was seen.
    pub fn touch_agent(&mut self, id: &str, now: u64) -> (r: Result<(), StoreError>)
        ensures
            final(self)@ == old(self)@.step(ChangeV::TouchAgent { id: id@, at: now }),
            r == old(self)@.answer(ChangeV::TouchAgent { id: id@, at: now }),
    {
        self.commit(Change::TouchAgent { id: id.to_owned(), at: now })
    }
}

/// The sum of a time and a duration, or the largest number.
pub open spec fn later(now: u64, ttl: u64) -> u64 {
    if now + ttl > u64::MAX {
        u64::MAX
    } else {
        (now + ttl) as u64
    }
}

/// The change that stores a new person.
pub open spec fn new_user(
    id: Seq<char>,
    email: Seq<char>,
    name: Seq<char>,
    password_hash: Option<Seq<char>>,
    github_id: Option<Seq<char>>,
    is_admin: bool,
    now: u64,
) -> ChangeV {
    ChangeV::InsertUser {
        user: UserV { id, email, name, password_hash, github_id, is_admin, disabled: false },
        created_at: now,
    }
}

/// The change that stores a new session.
pub open spec fn new_session(id: Seq<char>, user_id: Seq<char>, ttl: u64, ip: Seq<char>, now: u64) -> ChangeV {
    ChangeV::InsertSession {
        session: SessionV { id, user_id, created_at: now, expires_at: later(now, ttl), ip },
    }
}

/// The change that stores a new client.
pub open spec fn new_client(
    client_id: Seq<char>,
    secret_hash: Option<Seq<char>>,
    name: Seq<char>,
    redirect_uris: Seq<char>,
    scopes: Seq<char>,
    registration_type: Seq<char>,
    now: u64,
) -> ChangeV {
    ChangeV::InsertClient {
        client: ClientRowV {
            client_id,
            secret_hash,
            name,
            redirect_uris,
            scopes,
            registration_type,
            created_at: now,
        },
    }
}

/// The change that stores a decision.
pub open spec fn new_consent(
    user_id: Seq<char>,
    client_id: Seq<char>,
    scope: Seq<char>,
    decision: Seq<char>,
    now: u64,
) -> ChangeV {
    ChangeV::UpsertConsent { consent: ConsentV { user_id, client_id, scope, decision, updated_at: now } }
}

/// The change that stores a new refresh token.
pub open spec fn new_refresh(
    token: Seq<char>,
    user_id: Seq<char>,
    client_id: Seq<char>,
    scope: Seq<char>,
    ttl: u64,
    now: u64,
) -> ChangeV {
    ChangeV::InsertRefresh {
        refresh: RefreshTokenV {
            token,
            user_id,
            client_id,
            scope,
            issued_at: now,
            expires_at: later(now, ttl),
            rotated_to: None,
        },
    }
}

/// The change that adds an entry to the audit log.
pub open spec fn new_entry(event: Seq<char>, user_id: Option<Seq<char>>, detail: json::JsonV, now: u64) -> ChangeV {
    ChangeV::InsertAudit { entry: AuditEntryV { at: now, event, user_id, detail: json::json_text(detail) } }
}

/// The change that stores a new agent.
pub open spec fn new_agent(
    id: Seq<char>,
    owner_user_id: Seq<char>,
    name: Seq<char>,
    secret_hash: Seq<char>,
    scopes: Seq<Seq<char>>,
    metadata: json::JsonV,
    now: u64,
) -> ChangeV {
    ChangeV::InsertAgent {
        agent: AgentRowV {
            id,
            owner_user_id,
            name,
            secret_hash,
            scopes: text::join(scopes, " "@),
            status: "active"@,
            created_at: now,
            metadata: json::json_text(metadata),
            last_seen: None,
        },
    }
}

/// The store after an attempt to redeem a code.
pub open spec fn after_redeeming(s: StoreV, code: Seq<char>, now: u64) -> StoreV {
    if s.redeemable(code, now) is Some {
        s.step(ChangeV::MarkCodeUsed { code })
    } else {
        s
    }
}

/// The store after an attempt to replace a refresh token.
pub open spec fn after_rotating(s: StoreV, token: Seq<char>, replacement: Seq<char>, now: u64) -> StoreV {
    if s.refreshable(token, now) is Some {
        s.step(ChangeV::RotateRefresh { token, replacement })
    } else {
        s
    }
}

} // verus!
