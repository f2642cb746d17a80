//! What signing in with a GitHub account takes, and whom it signs in.

use crate::account_laws;
use crate::cookies;
use crate::github;
use crate::github::{Fetched, GhCallback, IdentityV, StepV};
use crate::http::{HeadersV, ReplyV, StateV};
use crate::json;
use crate::json::JsonV;
use crate::laws;
use crate::login;
use crate::pages;
use crate::rows::UserV;
use crate::store;
use crate::store_laws;
use crate::tables;
use crate::tables::ChangeV;
use crate::text;
use vstd::prelude::*;
use vstd::string::*;
use vstd::utf8::*;

verus! {

/// Whether a cookie sets a name to a value.
pub open spec fn sets(cookie: Seq<char>, name: Seq<char>, value: Seq<char>) -> bool {
    text::has_prefix(cookie, name + "="@ + value + ";"@)
}

proof fn github_cookie_sets(name: Seq<char>, value: Seq<char>)
    ensures
        sets(cookies::github_cookie(name, value), name, value),
        sets(cookies::github_removed(name), name, Seq::empty()),
{
    reveal_strlit(";");
    reveal_strlit("=");
    reveal_strlit("; Path=/; Max-Age=600; HttpOnly; SameSite=Lax; Secure");
    reveal_strlit("=; Path=/; Max-Age=0");
    let p = name + "="@ + value + ";"@;
    assert(cookies::github_cookie(name, value).take(p.len() as int) =~= p);
    let q = name + "="@ + Seq::<char>::empty() + ";"@;
    assert(cookies::github_removed(name).take(q.len() as int) =~= q);
}

/// The browser is sent to GitHub, with the client of the settings and a state that a cookie remembers, as
/// another remembers where to go afterwards. Where no client is set, it stays.
pub proof fn the_way_to_github(state: StateV, next: Option<Seq<char>>, state_param: Seq<char>)
    ensures
        ({
            let r = github::start_reply(state, next, state_param);
            match state.config.github_client_id {
                None => r.status == 400 && account_laws::gives_nothing(r),
                Some(id) => {
                    &&& r.status == 303
                    &&& r.location == Some(
                        "https://github.com/login/oauth/authorize?client_id="@ + id
                            + "&scope=read:user%20user:email&state="@ + state_param,
                    )
                    &&& r.cookies.len() == 2
                    &&& sets(r.cookies[0], "argus_gh_state"@, state_param)
                    &&& exists|n: Seq<char>| #[trigger]
                        sets(r.cookies[1], "argus_gh_next"@, n) && account_laws::on_site(n) && (next matches Some(asked)
                            ==> account_laws::on_site(asked) ==> n == asked)
                },
            }
        }),
{
    let asked = login::or_empty(next);
    let n = pages::next_path(asked);
    account_laws::next_goes_on(asked);
    github_cookie_sets("argus_gh_state"@, state_param);
    github_cookie_sets("argus_gh_next"@, n);
    let r = github::start_reply(state, next, state_param);
    if state.config.github_client_id is Some {
        assert(sets(r.cookies[1], "argus_gh_next"@, n));
    }
}

/// Whether GitHub sends the browser back with a code, and with the state that the cookie remembers.
pub open spec fn comes_from_github(headers: HeadersV, q: GhCallback) -> bool {
    &&& cookies::cookie(headers, "argus_gh_state"@) == Some(q.state@)
    &&& 0 < q.state@.len()
    &&& encode_utf8(q.state@).len() <= 512
    &&& q.code@.len() > 0
}

/// Whether a step is the end, with an error page that gives nothing.
pub open spec fn ends(s: StepV) -> bool {
    s matches StepV::Answer { reply } && reply.status == 400 && account_laws::gives_nothing(reply)
}

/// The code is exchanged exactly where the browser comes back with the state that it left with, and the
/// client is set: what is sent is the client, its secret and the code. Else the sign-in ends.
pub proof fn the_way_back(state: StateV, headers: HeadersV, q: GhCallback)
    ensures
        ({
            let s = github::callback_step(state, headers, q);
            let set = state.config.github_client_id is Some && state.config.github_client_secret is Some;
            &&& !comes_from_github(headers, q) || !set ==> ends(s)
            &&& comes_from_github(headers, q) && set ==> (s matches StepV::Exchange { request, next } && {
                &&& json::member_str(request, "client_id"@) == state.config.github_client_id
                &&& json::member_str(request, "client_secret"@) == state.config.github_client_secret
                &&& json::member_str(request, "code"@) == Some(q.code@)
                &&& cookies::cookie(headers, "argus_gh_next"@) matches Some(n) ==> next == n
                &&& cookies::cookie(headers, "argus_gh_next"@) is None ==> next == "/"@
            })
        }),
{
    reveal_strlit("client_id");
    reveal_strlit("client_secret");
    reveal_strlit("code");
    assert("client_id"@.len() == 9 && "client_secret"@.len() == 13 && "code"@.len() == 4);
    match (state.config.github_client_id, state.config.github_client_secret) {
        (Some(id), Some(secret)) => {
            let p = seq![
                ("client_id"@, JsonV::Str(id)),
                ("client_secret"@, JsonV::Str(secret)),
                ("code"@, JsonV::Str(q.code@)),
            ];
            json::member_of_pair(p, 0);
            json::member_of_pair(p, 1);
            json::member_of_pair(p, 2);
        },
        _ => {},
    }
}

/// What an answer of GitHub says, where it is JSON.
pub open spec fn answer(f: Fetched) -> Option<JsonV> {
    match f {
        Fetched::Body(b) => json::json_parsed(b@),
        _ => None,
    }
}

/// With the access token that GitHub gives it is asked who signs in; without one the sign-in ends. Where to
/// go next is kept.
pub proof fn after_the_exchange(request: JsonV, next: Seq<char>, f: Fetched)
    ensures
        ({
            let s = github::advanced(StepV::Exchange { request, next }, f);
            match answer(f) {
                Some(v) => match json::member_str(v, "access_token"@) {
                    Some(t) => s == (StepV::FetchUser { token: t, next }),
                    None => ends(s),
                },
                None => ends(s),
            }
        }),
{
}

/// Who signs in is whom GitHub names: by number, by full name or else by login, and by email, in lower
/// case. Where GitHub shows no email it is asked for the addresses; without a number the sign-in ends.
pub proof fn who_github_says_it_is(token: Seq<char>, next: Seq<char>, f: Fetched)
    ensures
        ({
            let s = github::advanced(StepV::FetchUser { token, next }, f);
            match answer(f) {
                None => ends(s),
                Some(v) => match json::member_num(v, "id"@) {
                    None => ends(s),
                    Some(n) => match json::member_str(v, "email"@) {
                        Some(e) => s matches StepV::Finish { identity } && identity.email == text::lowercase(e)
                            && identity.next == next && crate::text_laws::number(identity.id) == n && named(
                            v,
                            identity.name,
                        ),
                        None => s matches StepV::FetchEmails { token: t, id, name, next: m } && t == token && m == next
                            && crate::text_laws::number(id) == n && named(v, name),
                    },
                },
            }
        }),
{
    match answer(f) {
        Some(v) => match json::member_num(v, "id"@) {
            Some(n) => {
                crate::text_laws::decimals_stand_for_numbers(n as nat);
            },
            None => {},
        },
        None => {},
    }
}

/// Whether a name is the full one of a GitHub user, or else the login.
pub open spec fn named(v: JsonV, name: Seq<char>) -> bool {
    &&& json::member_str(v, "name"@) matches Some(n) ==> name == n
    &&& json::member_str(v, "name"@) is None ==> name == match json::member_str(v, "login"@) {
        Some(l) => l,
        None => "GitHub User"@,
    }
}

/// Whether an entry is a primary address.
pub open spec fn primary(e: JsonV) -> bool {
    json::member(e, "primary"@) == Some(JsonV::Bool(true))
}

/// Of the addresses the first primary one counts, or else the first, in lower case; without an address the
/// sign-in ends. The number, the name and where to go next are kept.
pub proof fn which_address_counts(token: Seq<char>, id: Seq<char>, name: Seq<char>, next: Seq<char>, f: Fetched, list: Seq<JsonV>)
    ensures
        ({
            let s = github::advanced(StepV::FetchEmails { token, id, name, next }, f);
            &&& !(answer(f) matches Some(JsonV::Arr(_))) ==> ends(s)
            &&& answer(f) == Some(JsonV::Arr(list)) ==> {
                &&& list.len() == 0 ==> ends(s)
                &&& forall|k: int|
                    0 <= k < list.len() && primary(#[trigger] list[k]) && (forall|j: int|
                        0 <= j < k ==> !primary(#[trigger] list[j])) ==> (json::member_str(list[k], "email"@) matches Some(
                        e,
                    ) ==> s == (StepV::Finish {
                        identity: IdentityV { id, name, email: text::lowercase(e), next },
                    }))
                &&& list.len() > 0 && (forall|j: int|
                    0 <= j < list.len() ==> !primary(#[trigger] list[j]) || json::member_str(list[j], "email"@)
                        is None) ==> {
                    match json::member_str(list[0], "email"@) {
                        Some(e) => s == (StepV::Finish {
                            identity: IdentityV { id, name, email: text::lowercase(e), next },
                        }),
                        None => ends(s),
                    }
                }
            }
        }),
{
    let p = github::primary_entry();
    if answer(f) == Some(JsonV::Arr(list)) {
        let s = github::advanced(StepV::FetchEmails { token, id, name, next }, f);
        assert forall|k: int|
            0 <= k < list.len() && primary(#[trigger] list[k]) && (forall|j: int|
                0 <= j < k ==> !primary(#[trigger] list[j])) implies (json::member_str(list[k], "email"@) matches Some(
            e,
        ) ==> s == (StepV::Finish { identity: IdentityV { id, name, email: text::lowercase(e), next } })) by {
            assert forall|j: int| 0 <= j < k implies !p(#[trigger] list[j]) by {
                assert(!primary(list[j]));
            }
            tables::first_is(list, p, k);
        }
        tables::first_none(list, p);
        tables::first_some(list, p);
        if tables::first(list, p) is Some {
            let e = tables::first(list, p)->0;
            let k = choose|k: int| 0 <= k < list.len() && list[k] == e;
            assert(primary(list[k]));
        }
    }
}

/// A step that asks GitHub for nothing stays as it is.
pub proof fn other_steps_stay(s: StepV, f: Fetched)
    requires
        s is Answer || s is Finish,
    ensures
        github::advanced(s, f) == s,
{
}

/// Whether clients, codes, decisions, refresh tokens and agents are as they were.
pub open spec fn leaves_the_rest(a: StateV, b: StateV) -> bool {
    let s = a.store.tables;
    let t = b.store.tables;
    &&& t.clients == s.clients && t.codes == s.codes && t.consents == s.consents
    &&& t.refreshes == s.refreshes && t.agents == s.agents
    &&& a.config == b.config && a.key == b.key
}

/// The person who is signed in: the one with the GitHub account, or else the one with the email.
pub open spec fn account_of(state: StateV, who: IdentityV) -> Option<UserV> {
    match state.store.with_github(who.id) {
        Some(u) => Some(u),
        None => state.store.with_email(who.email),
    }
}

/// Whoever has the GitHub account is signed in, or else whoever has the email, unless disabled: the
/// browser goes on with a session cookie, and the session of that person is stored. A disabled person
/// gets nothing.
pub proof fn known_people_are_signed_in(
    state: StateV,
    who: IdentityV,
    token: Seq<char>,
    sid: Seq<char>,
    now: u64,
    u: UserV,
)
    requires
        account_of(state, who) == Some(u),
    ensures
        ({
            let out = github::finish_outcome(state, who, token, sid, now);
            &&& u.disabled ==> out.1.status == 400 && account_laws::gives_nothing(out.1)
                && out.0.store.tables.sessions == state.store.tables.sessions
            &&& !u.disabled ==> account_laws::goes_on(out.1, who.next) && account_laws::sets_session(
                out.1,
                sid,
                state.config.session_ttl,
            ) && account_laws::drops(out.1, "argus_gh_state"@) && account_laws::drops(out.1, "argus_gh_next"@)
            &&& !u.disabled && account_laws::session_fits(state, sid, now) ==> account_laws::one_more_session(
                state,
                out.0,
                sid,
                u.id,
                now,
            ) && account_laws::last_noted(out.0, "login_github"@, Some(u.id), now)
            &&& out.0.store.tables.users.len() == state.store.tables.users.len()
            &&& leaves_the_rest(state, out.0)
        }),
{
    let out = github::finish_outcome(state, who, token, sid, now);
    let p = github::account_for(state, who, token, now)->0;
    assert(p.1 == u);
    assert(p.0.store.tables.sessions == state.store.tables.sessions);
    assert(p.0.store.reachable == state.store.reachable && p.0.config == state.config);
    finishing(state, p.0, who, u, token, sid, now);
}

proof fn finishing(
    state: StateV,
    s: StateV,
    who: IdentityV,
    u: UserV,
    token: Seq<char>,
    sid: Seq<char>,
    now: u64,
)
    requires
        github::account_for(state, who, token, now) == Some((s, u)),
        s.store.tables.sessions == state.store.tables.sessions,
        s.store.reachable == state.store.reachable,
        s.config == state.config,
    ensures
        ({
            let out = github::finish_outcome(state, who, token, sid, now);
            &&& !u.disabled ==> account_laws::goes_on(out.1, who.next) && account_laws::sets_session(
                out.1,
                sid,
                state.config.session_ttl,
            ) && account_laws::drops(out.1, "argus_gh_state"@) && account_laws::drops(out.1, "argus_gh_next"@)
            &&& !u.disabled && account_laws::session_fits(state, sid, now) ==> account_laws::one_more_session(
                state,
                out.0,
                sid,
                u.id,
                now,
            ) && account_laws::last_noted(out.0, "login_github"@, Some(u.id), now)
            &&& out.0.store.tables.users.len() == s.store.tables.users.len()
        }),
{
    let out = github::finish_outcome(state, who, token, sid, now);
    account_laws::next_goes_on(who.next);
    account_laws::session_cookie_starts(sid, state.config.session_ttl);
    if !u.disabled {
        assert(out.1.cookies[0] == cookies::session_cookie(sid, state.config.session_ttl));
        assert(out.1.cookies[1] == cookies::github_removed(cookies::GH_STATE_COOKIE@));
        assert(out.1.cookies[2] == cookies::github_removed(cookies::GH_NEXT_COOKIE@));
        account_laws::removed_cookies_are_dropped("argus_gh_state"@);
        account_laws::removed_cookies_are_dropped("argus_gh_next"@);
        let s1 = login::bootstrapped(s, u.email);
        assert(s1.store.tables.sessions == state.store.tables.sessions);
        if account_laws::session_fits(state, sid, now) {
            account_laws::fitting_session_is_taken(s1, sid, u.id, ""@, now);
            assert(out.0.store.tables.sessions.drop_last() =~= state.store.tables.sessions);
        }
    }
}

/// Whoever has neither gets an account of their own: with the GitHub account, the email and the name, without
/// a password, and no administrator unless the bootstrap one. They are signed in.
pub proof fn new_people_get_an_account(
    state: StateV,
    who: IdentityV,
    token: Seq<char>,
    sid: Seq<char>,
    now: u64,
)
    requires
        account_of(state, who) is None,
        state.store.reachable,
        now <= store_laws::last_time(),
        forall|i: int|
            0 <= i < state.store.tables.users.len() ==> (#[trigger] state.store.tables.users[i]).id != "usr_"@ + token,
    ensures
        ({
            let out = github::finish_outcome(state, who, token, sid, now);
            &&& account_laws::goes_on(out.1, who.next)
            &&& account_laws::sets_session(
                out.1,
                sid,
                state.config.session_ttl,
            ) && account_laws::drops(out.1, "argus_gh_state"@) && account_laws::drops(out.1, "argus_gh_next"@)
            &&& account_laws::session_fits(state, sid, now) ==> account_laws::one_more_session(
                state,
                out.0,
                sid,
                "usr_"@ + token,
                now,
            )
            &&& out.0.store.with_email(who.email) == Some(
                UserV {
                    id: "usr_"@ + token,
                    email: who.email,
                    name: who.name,
                    password_hash: None,
                    github_id: Some(who.id),
                    is_admin: state.config.bootstrap_admin_email == Some(who.email)
                        && !state.store.tables.promoted.contains(who.email),
                    disabled: false,
                },
            )
            &&& leaves_the_rest(state, out.0)
        }),
{
    let id = login::user_id(token);
    let c = store::new_user(id, who.email, who.name, None, Some(who.id), false, now);
    store_laws::when_rows_are_taken(state.store, c);
    store_laws::people_are_found_by_their_keys(state.store, who.email);
    store_laws::people_are_found_by_their_keys(state.store, who.id);
    assert(state.store.accepts(c));
    let p = github::account_for(state, who, token, now)->0;
    finishing(state, p.0, who, p.1, token, sid, now);
    laws::stored_user_is_found(state.store, id, who.email, who.name, None, Some(who.id), false, now);
    assert(p.0.store.with_email(who.email) == Some(p.1));
    laws::promotion_is_remembered(p.0.store, who.email);
    let out = github::finish_outcome(state, who, token, sid, now);
    assert(out.0.store.tables.users == login::bootstrapped(p.0, who.email).store.tables.users);
}

/// A person who is found by email is linked to the GitHub account, and is found by it from then on.
pub proof fn accounts_are_linked_by_email(
    state: StateV,
    who: IdentityV,
    token: Seq<char>,
    sid: Seq<char>,
    now: u64,
    u: UserV,
)
    requires
        state.store.with_github(who.id) is None,
        state.store.with_email(who.email) == Some(u),
    ensures
        github::finish_outcome(state, who, token, sid, now).0.store.with_github(who.id) matches Some(x) && x.id == u.id,
{
    let p = github::account_for(state, who, token, now)->0;
    crate::guarantees::github_account_is_found_again(state, who, token, now);
    let out = github::finish_outcome(state, who, token, sid, now);
    tables::first_map(
        p.0.store.tables.users,
        |x: UserV| tables::promoted(x, u.email),
        tables::user_github(who.id),
    );
}

} // verus!
