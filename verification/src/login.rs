//! Signing in with a password, creating an account, signing out.

use crate::cookies;
use crate::crypto;
use crate::encoding;
use crate::http;
use crate::http::{AppState, BodyV, HeadersV, Reply, ReplyV, RequestHeaders, StateV};
use crate::json;
use crate::json::JsonV;
use crate::pages;
use crate::rows;
use crate::rows::{User, UserV};
use crate::store;
use crate::tables::ChangeV;
use crate::text;
use serde_json::Value;
use vstd::prelude::*;
use vstd::string::*;

verus! {

/// The query of the sign-in page and of the start of a sign-in at GitHub.
#[derive(Debug)]
pub struct NextQuery {
    pub next: Option<String>,
}

/// The query of the registration page.
#[derive(Debug)]
pub struct RegisterQuery {
    pub next: Option<String>,
}

/// The form of the sign-in page.
#[derive(Debug)]
pub struct LoginForm {
    pub email: String,
    pub password: String,
    pub next: String,
    pub csrf: String,
}

/// The form of the registration page.
#[derive(Debug)]
pub struct RegisterForm {
    pub name: String,
    pub email: String,
    pub password: String,
    pub next: String,
    pub csrf: String,
}

/// An optional text, or the empty one.
pub open spec fn or_empty(o: Option<Seq<char>>) -> Seq<char> {
    match o {
        Some(s) => s,
        None => Seq::empty(),
    }
}

/// An optional text, or the empty one.
pub fn text_or_empty(o: Option<String>) -> (r: String)
    ensures
        r@ == or_empty(text::opt_view(o)),
{
    match o {
        Some(s) => s,
        None => {
            let empty: String = String::new();
            assert(empty@ =~= Seq::empty());
            empty
        },
    }
}

// ---------------------------------------------------------------------------------------------
// The sign-in page
// ---------------------------------------------------------------------------------------------

pub const LOGIN_CSRF: &'static str = "<form method=\"post\" action=\"/login\"><input type=\"hidden\" name=\"csrf\" value=\"";

pub const LOGIN_NEXT: &'static str = "\"><input type=\"hidden\" name=\"next\" value=\"";

pub const LOGIN_FIELDS: &'static str = "\"><input type=\"email\" name=\"email\" placeholder=\"Email\" required autofocus><input type=\"password\" name=\"password\" placeholder=\"Password\" required><button type=\"submit\">Sign in</button></form><p style=\"text-align:center\">— or —</p><form method=\"get\" action=\"/auth/github\"><input type=\"hidden\" name=\"next\" value=\"";

pub const LOGIN_GITHUB: &'static str = "\"><button class=\"gh\" ";

pub const LOGIN_GITHUB_OFF: &'static str = "disabled title='GitHub login not configured'";

pub const LOGIN_REGISTER: &'static str = ">Sign in with GitHub</button></form><p style=\"font-size:.8rem;text-align:center\"><a href=\"/register?next=";

pub const LOGIN_END: &'static str = "\">Create account</a></p>";

/// The body of the sign-in page.
pub open spec fn login_body(csrf: Seq<char>, next: Seq<char>, github: bool) -> Seq<char> {
    let n = encoding::url_encoded(next);
    LOGIN_CSRF@ + csrf + LOGIN_NEXT@ + n + LOGIN_FIELDS@ + n + LOGIN_GITHUB@ + (if github {
        ""@
    } else {
        LOGIN_GITHUB_OFF@
    }) + LOGIN_REGISTER@ + n + LOGIN_END@
}

/// The sign-in page.
pub open spec fn login_page(state: StateV, headers: HeadersV, next: Option<Seq<char>>, fresh: Seq<char>) -> ReplyV {
    let csrf = cookies::csrf_for(headers, fresh);
    http::plain(
        200,
        BodyV::Html(
            pages::page_text(
                "Sign in"@,
                login_body(csrf, or_empty(next), state.config.github_client_id is Some),
            ),
        ),
    ).with_cookie(cookies::csrf_cookie(csrf))
}

/// The sign-in page, with this CSRF token if the browser has none.
pub fn login_form_with(state: &AppState, q: NextQuery, headers: &RequestHeaders, fresh: String) -> (r: Reply)
    ensures
        r@ == login_page(state@, headers@, text::opt_view(q.next), fresh@),
{
    let csrf: String = cookies::csrf_or(headers, fresh);
    let next: String = text_or_empty(q.next);
    let n: String = encoding::url_encode(next.as_str());
    let mut body: String = LOGIN_CSRF.to_owned();
    body.append(csrf.as_str());
    body.append(LOGIN_NEXT);
    body.append(n.as_str());
    body.append(LOGIN_FIELDS);
    body.append(n.as_str());
    body.append(LOGIN_GITHUB);
    body.append(
        if state.config.github_client_id.is_some() {
            ""
        } else {
            LOGIN_GITHUB_OFF
        },
    );
    body.append(LOGIN_REGISTER);
    body.append(n.as_str());
    body.append(LOGIN_END);
    Reply::html(200, pages::page("Sign in", body.as_str())).with_cookie(cookies::set_csrf(csrf.as_str()))
}

/// The sign-in page.
pub fn login_form(state: &AppState, q: NextQuery, headers: &RequestHeaders) -> (r: Reply)
    ensures
        exists|fresh: Seq<char>| #[trigger]
            crypto::token_text(fresh, 32) && r@ == login_page(state@, headers@, text::opt_view(q.next), fresh),
{
    let fresh: String = crypto::rand_token(32);
    login_form_with(state, q, headers, fresh)
}

// ---------------------------------------------------------------------------------------------
// Signing in
// ---------------------------------------------------------------------------------------------

/// The provider after the bootstrap administrator, if this is the one and was not promoted before, was
/// promoted.
pub open spec fn bootstrapped(state: StateV, email: Seq<char>) -> StateV {
    if state.config.bootstrap_admin_email == Some(email) && !state.store.tables.promoted.contains(email) {
        state.step(ChangeV::PromoteAdmin { email })
    } else {
        state
    }
}

/// Promotes the bootstrap administrator, if this is the one and was not promoted before.
pub fn promote_bootstrap_admin(state: &mut AppState, email: &str)
    ensures
        final(state)@ == bootstrapped(old(state)@, email@),
{
    let is_admin = match &state.config.bootstrap_admin_email {
        Some(e) => text::same(e.as_str(), email),
        None => false,
    };
    if is_admin && !state.store.was_promoted(email) {
        let _ = state.store.promote_admin(email);
    }
}

/// An email as it is stored: without white space around it and in lower case.
pub open spec fn normal_email(email: Seq<char>) -> Seq<char> {
    text::lowercase(text::trimmed(email))
}

/// The person who has this email and this password, unless disabled.
pub open spec fn known_person(state: StateV, email: Seq<char>, password: Seq<char>) -> Option<UserV> {
    match state.store.with_email(email) {
        Some(u) => if !u.disabled && u.password_hash is Some && crypto::password_matches(
            password,
            u.password_hash->0,
        ) {
            Some(u)
        } else {
            None
        },
        None => None,
    }
}

/// The person who has this email and this password, unless disabled.
fn find_person(state: &AppState, email: &str, password: &str) -> (r: Option<User>)
    ensures
        rows::opt_row(r) == known_person(state@, email@, password@),
{
    match state.store.user_by_email(email) {
        Ok(Some(u)) => {
            let good = !u.disabled && match &u.password_hash {
                Some(h) => crypto::verify_password(password, h.as_str()),
                None => false,
            };
            if good {
                Some(u)
            } else {
                None
            }
        },
        _ => None,
    }
}

/// The detail of an audit entry that holds one text.
pub open spec fn detail1(key: Seq<char>, value: Seq<char>) -> JsonV {
    json::object(seq![(key, JsonV::Str(value))])
}

/// The detail of an audit entry that holds one text.
pub fn make_detail1(key: &str, value: &str) -> (r: Value)
    ensures
        json::json_view(r) == detail1(key@, value@),
{
    let mut p: Vec<(String, Value)> = Vec::new();
    p.push((key.to_owned(), json::json_str(value.to_owned())));
    assert(json::pair_views(p@) =~= seq![(key@, JsonV::Str(value@))]);
    json::json_object(p)
}

/// The detail of an audit entry that holds nothing.
pub open spec fn no_detail() -> JsonV {
    json::object(Seq::empty())
}

/// The detail of an audit entry that holds nothing.
pub fn make_no_detail() -> (r: Value)
    ensures
        json::json_view(r) == no_detail(),
{
    let p: Vec<(String, Value)> = Vec::new();
    assert(json::pair_views(p@) =~= Seq::empty());
    json::json_object(p)
}

/// The reply that sends a person who has signed in on their way: the session cookie is set, and the
/// CSRF token is dropped.
pub open spec fn welcome(next: Seq<char>, sid: Seq<char>, ttl: u64) -> ReplyV {
    http::redirect(pages::next_path(next)).with_cookie(cookies::session_cookie(sid, ttl)).with_cookie(
        cookies::csrf_removed(),
    )
}

/// The reply that sends a person who has signed in on their way.
fn make_welcome(next: &str, sid: &str, ttl: u64) -> (r: Reply)
    ensures
        r@ == welcome(next@, sid@, ttl),
{
    Reply::redirect(pages::safe_next(next)).with_cookie(cookies::set_session(sid, ttl)).with_cookie(
        cookies::remove_csrf(),
    )
}

/// The page for wrong credentials.
pub open spec fn login_refused() -> ReplyV {
    http::plain(
        401,
        BodyV::Html(
            pages::page_text(
                "Sign in"@,
                "<p>Invalid email or password.</p><a href=\"/login\">Try again</a>"@,
            ),
        ),
    )
}

/// What comes of a submitted sign-in form.
pub open spec fn login_outcome(
    state: StateV,
    headers: HeadersV,
    f: LoginForm,
    sid: Seq<char>,
    now: u64,
) -> (StateV, ReplyV) {
    let email = normal_email(f.email@);
    if !cookies::csrf_good(headers, f.csrf@) {
        (state, pages::error_reply("Invalid CSRF token"@))
    } else {
        match known_person(state, email, f.password@) {
            None => (state.note("login_failed"@, None, detail1("email"@, email), now), login_refused()),
            Some(u) => (
                bootstrapped(state, u.email).step(
                    store::new_session(sid, u.id, state.config.session_ttl, or_empty(headers.forwarded_for), now),
                ).note("login_password"@, Some(u.id), no_detail(), now),
                welcome(f.next@, sid, state.config.session_ttl),
            ),
        }
    }
}

/// Takes a submitted sign-in form; `sid` is the identifier for a new session.
pub fn login_submit_at(state: &mut AppState, headers: &RequestHeaders, f: LoginForm, sid: String, now: u64) -> (r:
    Reply)
    ensures
        (final(state)@, r@) == login_outcome(old(state)@, headers@, f, sid@, now),
{
    if !cookies::csrf_ok(headers, f.csrf.as_str()) {
        return pages::err_page("Invalid CSRF token");
    }
    let email: String = text::trim(f.email.as_str()).to_lowercase();
    match find_person(state, email.as_str(), f.password.as_str()) {
        None => {
            let detail: Value = make_detail1("email", email.as_str());
            state.note("login_failed", None, detail, now);
            Reply::html(
                401,
                pages::page(
                    "Sign in",
                    "<p>Invalid email or password.</p><a href=\"/login\">Try again</a>",
                ),
            )
        },
        Some(user) => {
            promote_bootstrap_admin(state, user.email.as_str());
            let ip: String = text_or_empty(text::copy_opt(&headers.forwarded_for));
            let ttl: u64 = state.config.session_ttl;
            let _ = state.store.create_session(sid.as_str(), user.id.as_str(), ttl, ip.as_str(), now);
            state.note("login_password", Some(user.id.clone()), make_no_detail(), now);
            make_welcome(f.next.as_str(), sid.as_str(), ttl)
        },
    }
}

/// Takes a submitted sign-in form.
pub fn login_submit(state: &mut AppState, headers: &RequestHeaders, f: LoginForm) -> (r: Reply)
    ensures
        exists|sid: Seq<char>, now: u64|
            crypto::token_text(sid, 32) && (final(state)@, r@) == #[trigger] login_outcome(
                old(state)@,
                headers@,
                f,
                sid,
                now,
            ),
{
    let sid: String = crypto::rand_token(32);
    let now: u64 = crate::tokens::now_epoch();
    login_submit_at(state, headers, f, sid, now)
}

// ---------------------------------------------------------------------------------------------
// Creating an account
// ---------------------------------------------------------------------------------------------

pub const REGISTER_CSRF: &'static str = "<form method=\"post\" action=\"/register\"><input type=\"hidden\" name=\"csrf\" value=\"";

pub const REGISTER_NEXT: &'static str = "\"><input type=\"hidden\" name=\"next\" value=\"";

pub const REGISTER_FIELDS: &'static str = "\"><input type=\"text\" name=\"name\" placeholder=\"Name\" required maxlength=\"200\"><input type=\"email\" name=\"email\" placeholder=\"Email\" required><input type=\"password\" name=\"password\" minlength=\"10\" placeholder=\"Password (min 10 chars)\" required><button>Create account</button></form>";

/// The body of the registration page.
pub open spec fn register_body(csrf: Seq<char>, next: Seq<char>) -> Seq<char> {
    REGISTER_CSRF@ + csrf + REGISTER_NEXT@ + encoding::url_encoded(next) + REGISTER_FIELDS@
}

/// The registration page.
pub open spec fn register_page(headers: HeadersV, next: Option<Seq<char>>, fresh: Seq<char>) -> ReplyV {
    let csrf = cookies::csrf_for(headers, fresh);
    http::plain(
        200,
        BodyV::Html(pages::page_text("Register"@, register_body(csrf, or_empty(next)))),
    ).with_cookie(cookies::csrf_cookie(csrf))
}

/// The registration page, with this CSRF token if the browser has none.
pub fn register_form_with(q: RegisterQuery, headers: &RequestHeaders, fresh: String) -> (r: Reply)
    ensures
        r@ == register_page(headers@, text::opt_view(q.next), fresh@),
{
    let csrf: String = cookies::csrf_or(headers, fresh);
    let next: String = text_or_empty(q.next);
    let n: String = encoding::url_encode(next.as_str());
    let mut body: String = REGISTER_CSRF.to_owned();
    body.append(csrf.as_str());
    body.append(REGISTER_NEXT);
    body.append(n.as_str());
    body.append(REGISTER_FIELDS);
    Reply::html(200, pages::page("Register", body.as_str())).with_cookie(cookies::set_csrf(csrf.as_str()))
}

/// The registration page.
pub fn register_form(q: RegisterQuery, headers: &RequestHeaders) -> (r: Reply)
    ensures
        exists|fresh: Seq<char>| #[trigger]
            crypto::token_text(fresh, 32) && r@ == register_page(headers@, text::opt_view(q.next), fresh),
{
    let fresh: String = crypto::rand_token(32);
    register_form_with(q, headers, fresh)
}

/// What is wrong with a registration, if anything.
pub open spec fn register_problem(state: StateV, headers: HeadersV, f: RegisterForm) -> Option<Seq<char>> {
    let email = normal_email(f.email@);
    let name = text::trimmed(f.name@);
    if !cookies::csrf_good(headers, f.csrf@) {
        Some("Invalid CSRF token"@)
    } else if !email.contains('@') || text::byte_len(email) > 254 || name.len() == 0 || text::byte_len(name) > 200 {
        Some("Invalid input"@)
    } else if text::byte_len(f.password@) < 10 || text::byte_len(f.password@) > 1024 {
        Some("Password must be 10–1024 characters"@)
    } else if state.store.with_email(email) is Some {
        Some("An account with that email already exists"@)
    } else {
        None
    }
}

/// What is wrong with a registration, if anything.
fn find_problem(state: &AppState, headers: &RequestHeaders, f: &RegisterForm) -> (r: Option<&'static str>)
    ensures
        match r {
            Some(msg) => register_problem(state@, headers@, *f) == Some(msg@),
            None => register_problem(state@, headers@, *f) is None,
        },
{
    if !cookies::csrf_ok(headers, f.csrf.as_str()) {
        return Some("Invalid CSRF token");
    }
    let email: String = text::trim(f.email.as_str()).to_lowercase();
    let name: String = text::trim(f.name.as_str());
    if !text::contains_char(email.as_str(), '@') || text::len_in_bytes(email.as_str()) > 254
        || name.as_str().unicode_len() == 0 || text::len_in_bytes(name.as_str()) > 200 {
        return Some("Invalid input");
    }
    let n: usize = text::len_in_bytes(f.password.as_str());
    if n < 10 || n > 1024 {
        return Some("Password must be 10–1024 characters");
    }
    match state.store.user_by_email(email.as_str()) {
        Ok(Some(_)) => Some("An account with that email already exists"),
        _ => None,
    }
}

/// The identifier of a new person.
pub open spec fn user_id(token: Seq<char>) -> Seq<char> {
    "usr_"@ + token
}

/// What comes of a submitted registration form. The hash is looked at only where nothing is wrong
/// with the form.
pub open spec fn register_outcome(
    state: StateV,
    headers: HeadersV,
    f: RegisterForm,
    hash: Option<Seq<char>>,
    token: Seq<char>,
    sid: Seq<char>,
    now: u64,
) -> (StateV, ReplyV) {
    match register_problem(state, headers, f) {
        Some(msg) => (state, pages::error_reply(msg)),
        None => account_outcome(state, f, hash, token, sid, now),
    }
}

/// What comes of a registration with which nothing is wrong.
pub open spec fn account_outcome(
    state: StateV,
    f: RegisterForm,
    hash: Option<Seq<char>>,
    token: Seq<char>,
    sid: Seq<char>,
    now: u64,
) -> (StateV, ReplyV) {
    let email = normal_email(f.email@);
    let id = user_id(token);
    let c = store::new_user(id, email, text::trimmed(f.name@), hash, None, false, now);
    if hash is None {
        (state, pages::error_reply("Internal error"@))
    } else if !state.store.accepts(c) {
        (state, pages::error_reply("Could not create account"@))
    } else {
        (
            bootstrapped(
                state.step(c).note("register"@, Some(id), detail1("email"@, email), now),
                email,
            ).step(store::new_session(sid, id, state.config.session_ttl, ""@, now)),
            welcome(f.next@, sid, state.config.session_ttl),
        )
    }
}

/// Creates the account of a registration with which nothing is wrong.
fn create_account(
    state: &mut AppState,
    f: &RegisterForm,
    hash: Option<String>,
    token: &str,
    sid: &str,
    now: u64,
) -> (r: Reply)
    ensures
        (final(state)@, r@) == account_outcome(old(state)@, *f, text::opt_view(hash), token@, sid@, now),
{
    if hash.is_none() {
        return pages::err_page("Internal error");
    }
    let email: String = text::trim(f.email.as_str()).to_lowercase();
    let name: String = text::trim(f.name.as_str());
    let mut id: String = "usr_".to_owned();
    id.append(token);
    match state.store.create_user(id.as_str(), email.as_str(), name.as_str(), hash, None, false, now) {
        Err(_) => pages::err_page("Could not create account"),
        Ok(()) => {
            let detail: Value = make_detail1("email", email.as_str());
            state.note("register", Some(id.clone()), detail, now);
            promote_bootstrap_admin(state, email.as_str());
            let ttl: u64 = state.config.session_ttl;
            let _ = state.store.create_session(sid, id.as_str(), ttl, "", now);
            make_welcome(f.next.as_str(), sid, ttl)
        },
    }
}

/// Takes a submitted registration form; `hash` is the hash of the password, `token` what makes the
/// identifier of the person, and `sid` the identifier for a new session.
pub fn register_submit_at(
    state: &mut AppState,
    headers: &RequestHeaders,
    f: RegisterForm,
    hash: Option<String>,
    token: String,
    sid: String,
    now: u64,
) -> (r: Reply)
    ensures
        (final(state)@, r@) == register_outcome(
            old(state)@,
            headers@,
            f,
            text::opt_view(hash),
            token@,
            sid@,
            now,
        ),
{
    match find_problem(state, headers, &f) {
        Some(msg) => pages::err_page(msg),
        None => create_account(state, &f, hash, token.as_str(), sid.as_str(), now),
    }
}

/// Takes a submitted registration form. The password is hashed only where nothing is wrong with the
/// form.
pub fn register_submit(state: &mut AppState, headers: &RequestHeaders, f: RegisterForm) -> (r: Reply)
    ensures
        exists|hash: Option<Seq<char>>, token: Seq<char>, sid: Seq<char>, now: u64|
            {
                &&& register_problem(old(state)@, headers@, f) is None ==> hash is Some
                &&& crypto::may_hash(f.password@, hash)
                &&& crypto::token_text(token, 16)
                &&& crypto::token_text(sid, 32)
                &&& (final(state)@, r@) == #[trigger] register_outcome(
                    old(state)@,
                    headers@,
                    f,
                    hash,
                    token,
                    sid,
                    now,
                )
            },
{
    let token: String = crypto::rand_token(16);
    let sid: String = crypto::rand_token(32);
    let now: u64 = crate::tokens::now_epoch();
    match find_problem(state, headers, &f) {
        Some(msg) => {
            let r: Reply = pages::err_page(msg);
            assert((state@, r@) == register_outcome(old(state)@, headers@, f, None, token@, sid@, now));
            r
        },
        None => {
            let hash: Option<String> = crypto::hash_password(f.password.as_str());
            let ghost h = text::opt_view(hash);
            let r: Reply = create_account(state, &f, hash, token.as_str(), sid.as_str(), now);
            assert((state@, r@) == register_outcome(old(state)@, headers@, f, h, token@, sid@, now));
            r
        },
    }
}

// ---------------------------------------------------------------------------------------------
// Signing out
// ---------------------------------------------------------------------------------------------

/// What comes of signing out.
pub open spec fn logout_outcome(state: StateV, headers: HeadersV) -> (StateV, ReplyV) {
    (
        match cookies::cookie(headers, cookies::SESSION_COOKIE@) {
            Some(sid) => state.step(ChangeV::DeleteSession { id: sid }),
            None => state,
        },
        http::plain(
            200,
            BodyV::Html(
                pages::page_text(
                    "Signed out"@,
                    "<p>You are signed out.</p><a href=\"/login\">Sign in again</a>"@,
                ),
            ),
        ).with_cookie(cookies::session_removed()),
    )
}

/// Ends the session.
pub fn logout(state: &mut AppState, headers: &RequestHeaders) -> (r: Reply)
    ensures
        (final(state)@, r@) == logout_outcome(old(state)@, headers@),
{
    match cookies::cookie_value(headers, cookies::SESSION_COOKIE) {
        Some(sid) => {
            let _ = state.store.delete_session(sid.as_str());
        },
        None => {},
    }
    Reply::html(
        200,
        pages::page("Signed out", "<p>You are signed out.</p><a href=\"/login\">Sign in again</a>"),
    ).with_cookie(cookies::remove_session())
}

/// Ends the session.
pub fn logout_get(state: &mut AppState, headers: &RequestHeaders) -> (r: Reply)
    ensures
        (final(state)@, r@) == logout_outcome(old(state)@, headers@),
{
    logout(state, headers)
}

} // verus!
