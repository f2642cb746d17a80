//! Who gets an account, who is signed in, and who is not.

use crate::cookies;
use crate::crypto;
use crate::encoding;
use crate::http::{BodyV, HeadersV, ReplyV, StateV};
use crate::json;
use crate::json::JsonV;
use crate::laws;
use crate::login;
use crate::login::{LoginForm, RegisterForm};
use crate::rows::{SessionV, UserV};
use crate::store;
use crate::store_laws;
use crate::tables;
use crate::tables::ChangeV;
use crate::text;
use vstd::prelude::*;
use vstd::string::*;
use vstd::utf8::*;

verus! {

// ---------------------------------------------------------------------------------------------
// Words of the laws
// ---------------------------------------------------------------------------------------------

/// Whether the token that a form carries is the one in the CSRF cookie.
pub open spec fn token_comes_back(headers: HeadersV, submitted: Seq<char>) -> bool {
    cookies::cookie(headers, "argus_csrf"@) == Some(submitted) && submitted.len() > 0 && encode_utf8(submitted).len()
        <= 128
}

/// Whether a reply gives nothing: no cookie, and nowhere to go.
pub open spec fn gives_nothing(r: ReplyV) -> bool {
    r.cookies.len() == 0 && r.location is None
}

/// Whether a reply sets the session cookie to this value, for so many seconds.
pub open spec fn sets_session(r: ReplyV, sid: Seq<char>, ttl: u64) -> bool {
    exists|i: int|
        0 <= i < r.cookies.len() && text::has_prefix(
            #[trigger] r.cookies[i],
            "argus_session"@ + "="@ + sid + "; Path=/; Max-Age="@ + text::decimal(ttl as nat) + ";"@,
        )
}

/// Whether a reply takes a cookie away.
pub open spec fn drops(r: ReplyV, name: Seq<char>) -> bool {
    exists|i: int|
        0 <= i < r.cookies.len() && text::has_prefix(#[trigger] r.cookies[i], name + "=; Path=/; Max-Age=0"@)
}

/// A cookie that is removed is dropped.
pub proof fn removed_cookies_are_dropped(name: Seq<char>)
    ensures
        text::has_prefix(cookies::csrf_removed(), "argus_csrf"@ + "=; Path=/; Max-Age=0"@),
        text::has_prefix(cookies::github_removed(name), name + "=; Path=/; Max-Age=0"@),
{
    reveal_strlit("=; Path=/; Max-Age=0");
    reveal_strlit("=; Path=/; Max-Age=0; HttpOnly");
    let p = "argus_csrf"@ + "=; Path=/; Max-Age=0"@;
    assert(cookies::csrf_removed().take(p.len() as int) =~= p);
    let q = name + "=; Path=/; Max-Age=0"@;
    assert(cookies::github_removed(name).take(q.len() as int) =~= q);
}

/// Whether a text holds another.
pub open spec fn holds(t: Seq<char>, piece: Seq<char>) -> bool {
    exists|a: Seq<char>, b: Seq<char>| #[trigger] (a + piece + b) == t
}

/// Whether the newest change on record is an audit entry of this event about this person.
pub open spec fn last_noted(state: StateV, event: Seq<char>, user_id: Option<Seq<char>>, now: u64) -> bool {
    state.store.journal.len() > 0 && (state.store.journal.last() matches ChangeV::InsertAudit { entry } && entry.event
        == event && entry.user_id == user_id && entry.at == now)
}

/// Whether a path is one on this site.
pub open spec fn on_site(p: Seq<char>) -> bool {
    p.len() > 0 && p[0] == '/' && (p.len() == 1 || p[1] != '/') && forall|i: int|
        0 <= i < p.len() ==> #[trigger] p[i] != '\\'
}

/// Whether the browser is sent where it asked to go, if that is on this site, and else to the start page.
pub open spec fn goes_on(r: ReplyV, next: Seq<char>) -> bool {
    r.status == 303 && r.location is Some && on_site(r.location->0) && (on_site(next) ==> r.location == Some(next))
}

/// Whether one more session is stored: of this person, from now on, for so long.
pub open spec fn one_more_session(a: StateV, b: StateV, sid: Seq<char>, user_id: Seq<char>, now: u64) -> bool {
    &&& b.store.tables.sessions.len() == a.store.tables.sessions.len() + 1
    &&& b.store.tables.sessions.drop_last() == a.store.tables.sessions
    &&& b.store.tables.sessions.last().id == sid
    &&& b.store.tables.sessions.last().user_id == user_id
    &&& b.store.tables.sessions.last().created_at == now
    &&& b.store.tables.sessions.last().expires_at == now + a.config.session_ttl
}

/// Whether a session with this identifier can be stored now.
pub open spec fn session_fits(state: StateV, sid: Seq<char>, now: u64) -> bool {
    &&& state.store.reachable
    &&& now + state.config.session_ttl <= store_laws::last_time()
    &&& forall|i: int|
        0 <= i < state.store.tables.sessions.len() ==> (#[trigger] state.store.tables.sessions[i]).id != sid
}

/// Where the browser goes after signing in is on this site, and is where it asked to go if that is.
pub proof fn next_goes_on(next: Seq<char>)
    ensures
        on_site(crate::pages::next_path(next)),
        on_site(next) ==> crate::pages::next_path(next) == next,
{
    reveal_strlit("/");
    assert(crate::pages::local_path(next) ==> on_site(next)) by {
        if crate::pages::local_path(next) {
            assert forall|i: int| 0 <= i < next.len() implies #[trigger] next[i] != '\\' by {
                assert(next.contains(next[i]));
            }
        }
    }
    assert(on_site("/"@));
}

/// The cookie of a session starts with its name and its value.
pub proof fn session_cookie_starts(sid: Seq<char>, ttl: u64)
    ensures
        text::has_prefix(
            cookies::session_cookie(sid, ttl),
            "argus_session"@ + "="@ + sid + "; Path=/; Max-Age="@ + text::decimal(ttl as nat) + ";"@,
        ),
{
    reveal_strlit(";");
    reveal_strlit("; HttpOnly; SameSite=Lax; Secure");
    let p = "argus_session"@ + "="@ + sid + "; Path=/; Max-Age="@ + text::decimal(ttl as nat) + ";"@;
    let c = cookies::session_cookie(sid, ttl);
    assert(c.take(p.len() as int) =~= p);
}

/// A session that fits is taken.
pub proof fn fitting_session_is_taken(state: StateV, sid: Seq<char>, user_id: Seq<char>, ip: Seq<char>, now: u64)
    requires
        session_fits(state, sid, now),
    ensures
        state.store.accepts(store::new_session(sid, user_id, state.config.session_ttl, ip, now)),
{
    store_laws::when_rows_are_taken(
        state.store,
        store::new_session(sid, user_id, state.config.session_ttl, ip, now),
    );
}

// ---------------------------------------------------------------------------------------------
// Signing in
// ---------------------------------------------------------------------------------------------

/// Nobody is signed in but a person with the email and a stored hash that the password matches, who is
/// not disabled, and who sends back the token of the form. To everyone else nothing is given, and no
/// table changes.
pub proof fn only_the_right_password_signs_in(
    state: StateV,
    headers: HeadersV,
    f: LoginForm,
    sid: Seq<char>,
    now: u64,
)
    ensures
        ({
            let out = login::login_outcome(state, headers, f, sid, now);
            let email = text::lowercase(text::trimmed(f.email@));
            &&& out.1.status == 303 ==> {
                &&& token_comes_back(headers, f.csrf@)
                &&& state.store.with_email(email) matches Some(u) && !u.disabled && (u.password_hash matches Some(h)
                    && crypto::argon2_matches(f.password@, h))
            }
            &&& !token_comes_back(headers, f.csrf@) ==> out.1.status == 400 && gives_nothing(out.1) && out.0 == state
            &&& token_comes_back(headers, f.csrf@) && out.1.status != 303 ==> out.1.status == 401 && gives_nothing(
                out.1,
            ) && out.0.store.tables == state.store.tables
        }),
{
}

/// A person who is not disabled, with a password that matches the stored hash, is signed in: the browser
/// goes on with a session cookie, and the session of that person is stored for as long as is set.
pub proof fn the_right_password_signs_in(
    state: StateV,
    headers: HeadersV,
    f: LoginForm,
    sid: Seq<char>,
    now: u64,
    u: UserV,
    h: Seq<char>,
)
    requires
        token_comes_back(headers, f.csrf@),
        state.store.with_email(text::lowercase(text::trimmed(f.email@))) == Some(u),
        !u.disabled,
        u.password_hash == Some(h),
        crypto::argon2_matches(f.password@, h),
        crypto::small_parallelism(h),
    ensures
        ({
            let out = login::login_outcome(state, headers, f, sid, now);
            &&& goes_on(out.1, f.next@)
            &&& sets_session(out.1, sid, state.config.session_ttl)
            &&& drops(out.1, "argus_csrf"@)
            &&& session_fits(state, sid, now) ==> {
                &&& one_more_session(state, out.0, sid, u.id, now)
                &&& out.0.store.tables.sessions.last().ip == match headers.forwarded_for {
                    Some(ip) => ip,
                    None => Seq::empty(),
                }
                &&& last_noted(out.0, "login_password"@, Some(u.id), now)
            }
        }),
{
    let out = login::login_outcome(state, headers, f, sid, now);
    next_goes_on(f.next@);
    session_cookie_starts(sid, state.config.session_ttl);
    assert(out.1.cookies[0] == cookies::session_cookie(sid, state.config.session_ttl));
    assert(out.1.cookies[1] == cookies::csrf_removed());
    removed_cookies_are_dropped("argus_csrf"@);
    let s1 = login::bootstrapped(state, u.email);
    assert(s1.store.tables.sessions == state.store.tables.sessions);
    if session_fits(state, sid, now) {
        fitting_session_is_taken(s1, sid, u.id, login::or_empty(headers.forwarded_for), now);
        let b = out.0.store.tables.sessions;
        assert(b.drop_last() =~= state.store.tables.sessions);
    }
}

/// Signing in stores a session and makes the bootstrap administrator one, if this is the first time; beyond
/// that it changes no table.
pub proof fn what_signing_in_touches(state: StateV, headers: HeadersV, f: LoginForm, sid: Seq<char>, now: u64)
    ensures
        ({
            let out = login::login_outcome(state, headers, f, sid, now);
            let a = state.store.tables;
            let b = out.0.store.tables;
            let email = text::lowercase(text::trimmed(f.email@));
            &&& b.clients == a.clients && b.codes == a.codes && b.consents == a.consents
            &&& b.refreshes == a.refreshes && b.agents == a.agents
            &&& out.0.config == state.config && out.0.key == state.key
            &&& state.config.bootstrap_admin_email != Some(email) || a.promoted.contains(email) || out.1.status != 303
                ==> b.users == a.users && b.promoted == a.promoted
            &&& state.config.bootstrap_admin_email == Some(email) && !a.promoted.contains(email) && out.1.status == 303
                ==> out.0.store.with_email(email) == Some(UserV { is_admin: true, ..state.store.with_email(email)->0 })
                && b.promoted == a.promoted.insert(email)
        }),
{
    let email = login::normal_email(f.email@);
    store_laws::people_are_found_by_their_keys(state.store, email);
    if state.store.with_email(email) is Some {
        laws::promotion_is_remembered(state.store, email);
    }
}

/// Nothing of a password is kept but whether it matches: two passwords that both match, or of which
/// neither does, leave the same behind and are answered alike.
pub proof fn passwords_leave_no_trace(
    state: StateV,
    headers: HeadersV,
    f: LoginForm,
    g: LoginForm,
    sid: Seq<char>,
    now: u64,
)
    requires
        f.email@ == g.email@,
        f.next@ == g.next@,
        f.csrf@ == g.csrf@,
        forall|h: Seq<char>| #[trigger]
            crypto::argon2_matches(f.password@, h) <==> crypto::argon2_matches(g.password@, h),
    ensures
        login::login_outcome(state, headers, f, sid, now) == login::login_outcome(state, headers, g, sid, now),
{
    match state.store.with_email(login::normal_email(f.email@)) {
        Some(u) => match u.password_hash {
            Some(h) => {
                assert(crypto::argon2_matches(f.password@, h) == crypto::argon2_matches(g.password@, h));
            },
            None => {},
        },
        None => {},
    }
}

/// Creating an account keeps nothing of the password but its hash.
pub proof fn accounts_keep_hashes_alone(
    state: StateV,
    headers: HeadersV,
    f: RegisterForm,
    g: RegisterForm,
    hash: Option<Seq<char>>,
    token: Seq<char>,
    sid: Seq<char>,
    now: u64,
)
    requires
        f.email@ == g.email@,
        f.name@ == g.name@,
        f.next@ == g.next@,
        f.csrf@ == g.csrf@,
        encode_utf8(f.password@).len() == encode_utf8(g.password@).len(),
    ensures
        login::register_outcome(state, headers, f, hash, token, sid, now) == login::register_outcome(
            state,
            headers,
            g,
            hash,
            token,
            sid,
            now,
        ),
{
}

/// A failed sign-in is noted, with the email that was tried.
pub proof fn failed_sign_ins_are_noted(state: StateV, headers: HeadersV, f: LoginForm, sid: Seq<char>, now: u64)
    requires
        state.store.reachable,
        now <= store_laws::last_time(),
        login::login_outcome(state, headers, f, sid, now).1.status == 401,
    ensures
        last_noted(login::login_outcome(state, headers, f, sid, now).0, "login_failed"@, None, now),
        exists|v: JsonV| #[trigger]
            json::json_text(v)
                == login::login_outcome(state, headers, f, sid, now).0.store.journal.last()->entry.detail
                && json::member_str(v, "email"@) == Some(text::lowercase(text::trimmed(f.email@))),
{
    let email = login::normal_email(f.email@);
    let p = seq![("email"@, JsonV::Str(email))];
    json::member_of_pair(p, 0);
    let v = json::object(p);
    assert(json::json_text(v) == login::login_outcome(
        state,
        headers,
        f,
        sid,
        now,
    ).0.store.journal.last()->entry.detail);
}

/// Whoever holds a session is signed in as its person, and nobody else is.
pub proof fn who_is_signed_in(state: StateV, headers: HeadersV, now: u64)
    ensures
        match cookies::cookie(headers, "argus_session"@) {
            Some(sid) => cookies::signed_in(state, headers, now) == state.store.of_session(sid, now),
            None => cookies::signed_in(state, headers, now) is None,
        },
{
}

/// Signing out ends the session of the browser and no other, and takes the cookie away.
pub proof fn signing_out_ends_one_session(state: StateV, headers: HeadersV, x: SessionV)
    requires
        state.store.reachable,
    ensures
        ({
            let out = login::logout_outcome(state, headers);
            let a = state.store.tables;
            let b = out.0.store.tables;
            &&& out.1.status == 200
            &&& out.1.location is None
            &&& out.1.cookies.len() == 1 && text::has_prefix(
                out.1.cookies[0],
                "argus_session"@ + "=; Path=/; Max-Age=0;"@,
            )
            &&& b.users == a.users && b.clients == a.clients && b.codes == a.codes && b.consents == a.consents
            &&& b.refreshes == a.refreshes && b.agents == a.agents
            &&& b.sessions.contains(x) <==> a.sessions.contains(x) && cookies::cookie(headers, "argus_session"@)
                != Some(x.id)
        }),
{
    reveal_strlit("=; Path=/; Max-Age=0;");
    reveal_strlit("=; Path=/; Max-Age=0; HttpOnly; SameSite=Lax");
    let p = "argus_session"@ + "=; Path=/; Max-Age=0;"@;
    let c = cookies::session_removed();
    assert("=; Path=/; Max-Age=0; HttpOnly; SameSite=Lax"@.take(21) =~= "=; Path=/; Max-Age=0;"@);
    assert(c.take(p.len() as int) =~= p);
    match cookies::cookie(headers, cookies::SESSION_COOKIE@) {
        Some(sid) => {
            tables::kept(state.store.tables.sessions, |s: SessionV| s.id != sid);
        },
        None => {},
    }
}

// ---------------------------------------------------------------------------------------------
// Creating an account
// ---------------------------------------------------------------------------------------------

/// Whether a registration is one that is taken: the token comes back, the email has an `@` and is not too
/// long, there is a name that is not too long, the password has ten to 1024 bytes, and nobody has the
/// email.
pub open spec fn registration_stands(state: StateV, headers: HeadersV, f: RegisterForm) -> bool {
    let email = text::lowercase(text::trimmed(f.email@));
    let name = text::trimmed(f.name@);
    &&& token_comes_back(headers, f.csrf@)
    &&& email.contains('@')
    &&& encode_utf8(email).len() <= 254
    &&& name.len() > 0
    &&& encode_utf8(name).len() <= 200
    &&& 10 <= encode_utf8(f.password@).len() <= 1024
    &&& state.store.with_email(email) is None
}

/// An account is created, with its session, exactly for a registration that stands, where the password
/// could be hashed and the person can be stored. Else nothing is given and no table changes.
pub proof fn when_accounts_are_created(
    state: StateV,
    headers: HeadersV,
    f: RegisterForm,
    hash: Option<Seq<char>>,
    token: Seq<char>,
    sid: Seq<char>,
    now: u64,
)
    requires
        state.store.reachable,
        now <= store_laws::last_time(),
        forall|i: int|
            0 <= i < state.store.tables.users.len() ==> (#[trigger] state.store.tables.users[i]).id != "usr_"@ + token,
    ensures
        ({
            let out = login::register_outcome(state, headers, f, hash, token, sid, now);
            &&& registration_stands(state, headers, f) && hash is Some <==> out.1.status == 303
            &&& out.1.status != 303 ==> out.1.status == 400 && gives_nothing(out.1) && out.0 == state
        }),
{
    let email = login::normal_email(f.email@);
    let id = login::user_id(token);
    let c = store::new_user(id, email, text::trimmed(f.name@), hash, None, false, now);
    store_laws::when_rows_are_taken(state.store, c);
    store_laws::people_are_found_by_their_keys(state.store, email);
}

/// Whoever gets no account is told the first reason that holds.
pub proof fn why_no_account_is_created(
    state: StateV,
    headers: HeadersV,
    f: RegisterForm,
    hash: Option<Seq<char>>,
    token: Seq<char>,
    sid: Seq<char>,
    now: u64,
)
    ensures
        ({
            let r = login::register_outcome(state, headers, f, hash, token, sid, now).1;
            let email = text::lowercase(text::trimmed(f.email@));
            let name = text::trimmed(f.name@);
            let sent = token_comes_back(headers, f.csrf@);
            let fits = email.contains('@') && encode_utf8(email).len() <= 254 && name.len() > 0 && encode_utf8(
                name,
            ).len() <= 200;
            let long = 10 <= encode_utf8(f.password@).len() <= 1024;
            let taken = state.store.with_email(email) is Some;
            &&& !sent ==> r == crate::pages::error_reply("Invalid CSRF token"@)
            &&& sent && !fits ==> r == crate::pages::error_reply("Invalid input"@)
            &&& sent && fits && !long ==> r == crate::pages::error_reply("Password must be 10–1024 characters"@)
            &&& sent && fits && long && taken ==> r == crate::pages::error_reply(
                "An account with that email already exists"@,
            )
            &&& sent && fits && long && !taken && hash is None ==> r == crate::pages::error_reply("Internal error"@)
        }),
{
}

/// What someone is told who is not signed in: that the form's token is missing, or that the email or the
/// password is wrong, and not which of the two.
pub proof fn what_failed_sign_ins_are_told(
    state: StateV,
    headers: HeadersV,
    f: LoginForm,
    sid: Seq<char>,
    now: u64,
    other: StateV,
    g: LoginForm,
)
    ensures
        !token_comes_back(headers, f.csrf@) ==> login::login_outcome(state, headers, f, sid, now).1
            == crate::pages::error_reply("Invalid CSRF token"@),
        login::login_outcome(state, headers, f, sid, now).1.status == 401 && login::login_outcome(
            other,
            headers,
            g,
            sid,
            now,
        ).1.status == 401 ==> login::login_outcome(state, headers, f, sid, now).1 == login::login_outcome(
            other,
            headers,
            g,
            sid,
            now,
        ).1,
        login::login_outcome(state, headers, f, sid, now).1.status == 401 ==> (login::login_outcome(
            state,
            headers,
            f,
            sid,
            now,
        ).1.body matches BodyV::Html(page) && holds(page, "Invalid email or password."@)),
{
    let body = "<p>Invalid email or password.</p><a href=\"/login\">Try again</a>"@;
    let x = "Invalid email or password."@;
    reveal_strlit("<p>Invalid email or password.</p><a href=\"/login\">Try again</a>");
    reveal_strlit("Invalid email or password.");
    assert(body.take(3) + x + body.skip(29) =~= body);
    crate::site_laws::what_pages_hold("Sign in"@, body);
    let page = crate::pages::page_text("Sign in"@, body);
    let head = crate::pages::PAGE_START@ + "Sign in"@ + crate::pages::PAGE_STYLE@ + "Sign in"@ + "</h1>"@;
    crate::access_laws::holds_inside(head, body, "</div></body></html>"@, x);
}

/// The account that is created is that of the email, in lower case, with the name and the hash of the
/// form; it is no administrator unless it is the bootstrap one. Its session is stored, and the browser
/// goes on with the cookie.
pub proof fn what_account_is_created(
    state: StateV,
    headers: HeadersV,
    f: RegisterForm,
    hash: Option<Seq<char>>,
    token: Seq<char>,
    sid: Seq<char>,
    now: u64,
)
    requires
        login::register_outcome(state, headers, f, hash, token, sid, now).1.status == 303,
    ensures
        ({
            let out = login::register_outcome(state, headers, f, hash, token, sid, now);
            let email = text::lowercase(text::trimmed(f.email@));
            &&& registration_stands(state, headers, f)
            &&& hash is Some
            &&& out.0.store.with_email(email) == Some(
                UserV {
                    id: "usr_"@ + token,
                    email,
                    name: text::trimmed(f.name@),
                    password_hash: hash,
                    github_id: None,
                    is_admin: state.config.bootstrap_admin_email == Some(email)
                        && !state.store.tables.promoted.contains(email),
                    disabled: false,
                },
            )
            &&& goes_on(out.1, f.next@)
            &&& sets_session(out.1, sid, state.config.session_ttl)
            &&& drops(out.1, "argus_csrf"@)
            &&& session_fits(state, sid, now) ==> one_more_session(state, out.0, sid, "usr_"@ + token, now)
            &&& out.0.store.tables.users.len() == state.store.tables.users.len() + 1
            &&& out.0.store.tables.clients == state.store.tables.clients
            &&& out.0.store.tables.codes == state.store.tables.codes
            &&& out.0.store.tables.consents == state.store.tables.consents
            &&& out.0.store.tables.refreshes == state.store.tables.refreshes
            &&& out.0.store.tables.agents == state.store.tables.agents
        }),
{
    let out = login::register_outcome(state, headers, f, hash, token, sid, now);
    let email = login::normal_email(f.email@);
    let id = login::user_id(token);
    let name = text::trimmed(f.name@);
    let c = store::new_user(id, email, name, hash, None, false, now);
    next_goes_on(f.next@);
    session_cookie_starts(sid, state.config.session_ttl);
    assert(out.1.cookies[0] == cookies::session_cookie(sid, state.config.session_ttl));
    assert(out.1.cookies[1] == cookies::csrf_removed());
    removed_cookies_are_dropped("argus_csrf"@);
    laws::stored_user_is_found(state.store, id, email, name, hash, None, false, now);
    let s1 = state.step(c).note("register"@, Some(id), login::detail1("email"@, email), now);
    let s2 = login::bootstrapped(s1, email);
    laws::promotion_is_remembered(s1.store, email);
    assert(s2.store.tables.sessions == state.store.tables.sessions);
    if session_fits(state, sid, now) {
        fitting_session_is_taken(s2, sid, id, ""@, now);
        assert(out.0.store.tables.sessions.drop_last() =~= state.store.tables.sessions);
    }
}

// ---------------------------------------------------------------------------------------------
// What a request carries
// ---------------------------------------------------------------------------------------------

/// A cookie that is read stands in the request, under its name.
pub proof fn cookies_are_read_as_sent(headers: HeadersV, name: Seq<char>)
    ensures
        cookies::cookie(headers, name) matches Some(v) ==> headers.cookie is Some && exists|k: int|
            0 <= k < text::split(headers.cookie->0, ';').len() && text::trimmed(
                #[trigger] text::split(headers.cookie->0, ';')[k],
            ) == name + seq!['='] + v,
{
    match headers.cookie {
        Some(line) => {
            among_has(text::split(line, ';'), name);
        },
        None => {},
    }
}

proof fn among_has(pieces: Seq<Seq<char>>, name: Seq<char>)
    ensures
        cookies::cookie_among(pieces, name) matches Some(v) ==> exists|k: int|
            0 <= k < pieces.len() && text::trimmed(#[trigger] pieces[k]) == name + seq!['='] + v,
    decreases pieces.len(),
{
    if pieces.len() > 0 && cookies::cookie_among(pieces, name) is Some {
        let v = cookies::cookie_among(pieces, name)->0;
        let t = text::trimmed(pieces[0]);
        crate::text_laws::cut_in_two(t, '=');
        if !(text::split_once(t, '=') matches Some(kv) && kv.0 == name) {
            let rest = pieces.skip(1);
            among_has(rest, name);
            let k = choose|k: int|
                0 <= k < rest.len() && text::trimmed(#[trigger] rest[k]) == name + seq!['='] + v;
            assert(pieces[k + 1] == rest[k]);
        }
    }
}

/// The first cookie of a name is read.
pub proof fn the_first_cookie_counts(headers: HeadersV, name: Seq<char>, v: Seq<char>, k: int)
    requires
        headers.cookie is Some,
        !name.contains('='),
        0 <= k < text::split(headers.cookie->0, ';').len(),
        text::trimmed(text::split(headers.cookie->0, ';')[k]) == name + seq!['='] + v,
        forall|j: int|
            0 <= j < k ==> !text::has_prefix(
                text::trimmed(#[trigger] text::split(headers.cookie->0, ';')[j]),
                name + seq!['='],
            ),
    ensures
        cookies::cookie(headers, name) == Some(v),
{
    first_among(text::split(headers.cookie->0, ';'), name, v, k);
}

proof fn first_among(pieces: Seq<Seq<char>>, name: Seq<char>, v: Seq<char>, k: int)
    requires
        !name.contains('='),
        0 <= k < pieces.len(),
        text::trimmed(pieces[k]) == name + seq!['='] + v,
        forall|j: int| 0 <= j < k ==> !text::has_prefix(text::trimmed(#[trigger] pieces[j]), name + seq!['=']),
    ensures
        cookies::cookie_among(pieces, name) == Some(v),
    decreases k,
{
    let t = text::trimmed(pieces[0]);
    crate::text_laws::cut_in_two(t, '=');
    if k == 0 {
        text::split_front(name, '=', v);
    } else {
        let rest = pieces.skip(1);
        assert(rest[k - 1] == pieces[k]);
        assert forall|j: int| 0 <= j < k - 1 implies !text::has_prefix(
            text::trimmed(#[trigger] rest[j]),
            name + seq!['='],
        ) by {
            assert(rest[j] == pieces[j + 1]);
        }
        first_among(rest, name, v, k - 1);
        match text::split_once(t, '=') {
            Some(kv) => {
                if kv.0 == name {
                    crate::text_laws::prefixes_begin_texts(name + seq!['='], kv.1, t);
                    assert(!text::has_prefix(text::trimmed(pieces[0]), name + seq!['=']));
                }
            },
            None => {},
        }
    }
}

/// `Basic` credentials are those that the header holds: nothing else is taken for them.
pub proof fn basic_credentials_are_those_sent(headers: HeadersV)
    ensures
        cookies::basic(headers) matches Some(c) ==> !c.0.contains(':') && headers.authorization == Some(
            "Basic "@ + encoding::base64(encode_utf8(c.0 + seq![':'] + c.1), false),
        ),
{
    if cookies::basic(headers) is Some {
        let a = headers.authorization->0;
        let enc = text::after_prefix(a, "Basic "@)->0;
        assert(a =~= "Basic "@ + enc);
        let b = encoding::base64_bytes(enc, false)->0;
        assert(encoding::base64(b, false) == enc);
        decode_utf8_encode_utf8(b);
        crate::text_laws::cut_in_two(decode_utf8(b), ':');
    }
}

/// The bearer token is what stands behind the word in the header, and there is none without the word.
pub proof fn bearer_tokens_are_those_sent(headers: HeadersV, t: Seq<char>)
    ensures
        headers.authorization == Some("Bearer "@ + t) ==> cookies::bearer(headers) == t,
        headers.authorization is None ==> cookies::bearer(headers).len() == 0,
        headers.authorization matches Some(a) ==> !text::has_prefix(a, "Bearer "@) ==> cookies::bearer(headers).len()
            == 0,
{
    let line = "Bearer "@ + t;
    assert(line.take("Bearer "@.len() as int) =~= "Bearer "@);
    assert(line.skip("Bearer "@.len() as int) =~= t);
}

} // verus!
