//! Signing in with a GitHub account.
//!
//! The calls to GitHub are made elsewhere. Here stands what is decided between them: `github_callback`
//! begins, `github_advance` takes what a call brought and says what to do next, and `github_finish`
//! signs the person in.

use crate::cookies;
use crate::crypto;
use crate::http;
use crate::http::{AppState, HeadersV, Reply, ReplyV, RequestHeaders, StateV};
use crate::json;
use crate::json::JsonV;
use crate::login;
use crate::login::NextQuery;
use crate::pages;
use crate::rows::{User, UserV};
use crate::store;
use crate::tables;
use crate::tables::ChangeV;
use crate::text;
use serde_json::Value;
use vstd::prelude::*;
use vstd::string::*;

verus! {

pub const GITHUB_AUTHORIZE: &'static str = "https://github.com/login/oauth/authorize?client_id=";

pub const GITHUB_SCOPE: &'static str = "&scope=read:user%20user:email&state=";

/// What GitHub sends the browser back with.
#[derive(Debug)]
pub struct GhCallback {
    pub code: String,
    pub state: String,
}

/// What a call to GitHub brought.
#[derive(Debug)]
pub enum Fetched {
    /// No answer.
    Unreachable,
    /// An answer whose body could not be read.
    Broken,
    /// An answer with this body.
    Body(Vec<u8>),
}

/// Who signs in.
#[derive(Debug)]
pub struct GithubIdentity {
    pub id: String,
    pub name: String,
    pub email: String,
    pub next: String,
}

/// What to do next.
#[derive(Debug)]
pub enum GithubStep {
    /// Reply; the sign-in is over.
    Answer { reply: Reply },
    /// Send this to GitHub for an access token.
    Exchange { request: Value, next: String },
    /// Ask GitHub who the holder of the access token is.
    FetchUser { token: String, next: String },
    /// Ask GitHub for the email addresses of the holder.
    FetchEmails { token: String, id: String, name: String, next: String },
    /// Sign the person in.
    Finish { identity: GithubIdentity },
}

/// What an identity holds.
pub struct IdentityV {
    pub id: Seq<char>,
    pub name: Seq<char>,
    pub email: Seq<char>,
    pub next: Seq<char>,
}

impl View for GithubIdentity {
    type V = IdentityV;

    open spec fn view(&self) -> IdentityV {
        IdentityV { id: self.id@, name: self.name@, email: self.email@, next: self.next@ }
    }
}

/// What a step holds.
pub enum StepV {
    Answer { reply: ReplyV },
    Exchange { request: JsonV, next: Seq<char> },
    FetchUser { token: Seq<char>, next: Seq<char> },
    FetchEmails { token: Seq<char>, id: Seq<char>, name: Seq<char>, next: Seq<char> },
    Finish { identity: IdentityV },
}

impl View for GithubStep {
    type V = StepV;

    open spec fn view(&self) -> StepV {
        match *self {
            GithubStep::Answer { reply } => StepV::Answer { reply: reply@ },
            GithubStep::Exchange { request, next } => StepV::Exchange {
                request: json::json_view(request),
                next: next@,
            },
            GithubStep::FetchUser { token, next } => StepV::FetchUser { token: token@, next: next@ },
            GithubStep::FetchEmails { token, id, name, next } => StepV::FetchEmails {
                token: token@,
                id: id@,
                name: name@,
                next: next@,
            },
            GithubStep::Finish { identity } => StepV::Finish { identity: identity@ },
        }
    }
}

/// The step that ends the sign-in with an error page.
pub open spec fn failed(msg: Seq<char>) -> StepV {
    StepV::Answer { reply: pages::error_reply(msg) }
}

fn fail(msg: &str) -> (r: GithubStep)
    ensures
        r@ == failed(msg@),
{
    GithubStep::Answer { reply: pages::err_page(msg) }
}

// ---------------------------------------------------------------------------------------------
// The way to GitHub
// ---------------------------------------------------------------------------------------------

/// The reply that sends the browser to GitHub: `state_param` comes back from there and must be that of
/// the cookie.
pub open spec fn start_reply(state: StateV, next: Option<Seq<char>>, state_param: Seq<char>) -> ReplyV {
    match state.config.github_client_id {
        None => pages::error_reply("GitHub login is not configured"@),
        Some(client_id) => http::redirect(GITHUB_AUTHORIZE@ + client_id + GITHUB_SCOPE@ + state_param).with_cookie(
            cookies::github_cookie(cookies::GH_STATE_COOKIE@, state_param),
        ).with_cookie(
            cookies::github_cookie(cookies::GH_NEXT_COOKIE@, pages::next_path(login::or_empty(next))),
        ),
    }
}

/// Sends the browser to GitHub with this state.
pub fn github_start_with(state: &AppState, q: NextQuery, state_param: String) -> (r: Reply)
    ensures
        r@ == start_reply(state@, text::opt_view(q.next), state_param@),
{
    match &state.config.github_client_id {
        None => pages::err_page("GitHub login is not configured"),
        Some(client_id) => {
            let next: String = pages::safe_next(login::text_or_empty(q.next).as_str());
            let mut url: String = GITHUB_AUTHORIZE.to_owned();
            url.append(client_id.as_str());
            url.append(GITHUB_SCOPE);
            url.append(state_param.as_str());
            Reply::redirect(url).with_cookie(
                cookies::set_github(cookies::GH_STATE_COOKIE, state_param.as_str()),
            ).with_cookie(cookies::set_github(cookies::GH_NEXT_COOKIE, next.as_str()))
        },
    }
}

/// Sends the browser to GitHub.
pub fn github_start(state: &AppState, q: NextQuery) -> (r: Reply)
    ensures
        exists|state_param: Seq<char>| #[trigger]
            crypto::token_text(state_param, 24) && r@ == start_reply(state@, text::opt_view(q.next), state_param),
{
    let state_param: String = crypto::rand_token(24);
    github_start_with(state, q, state_param)
}

// ---------------------------------------------------------------------------------------------
// The way back
// ---------------------------------------------------------------------------------------------

/// What is sent to GitHub for an access token.
pub open spec fn exchange_request(client_id: Seq<char>, client_secret: Seq<char>, code: Seq<char>) -> JsonV {
    json::object(
        seq![
            ("client_id"@, JsonV::Str(client_id)),
            ("client_secret"@, JsonV::Str(client_secret)),
            ("code"@, JsonV::Str(code)),
        ],
    )
}

/// The first step after GitHub has sent the browser back.
pub open spec fn callback_step(state: StateV, headers: HeadersV, q: GhCallback) -> StepV {
    let expected = login::or_empty(cookies::cookie(headers, cookies::GH_STATE_COOKIE@));
    let next = match cookies::cookie(headers, cookies::GH_NEXT_COOKIE@) {
        Some(n) => n,
        None => "/"@,
    };
    if expected.len() == 0 {
        failed("Missing GitHub state"@)
    } else if q.code@.len() == 0 || text::byte_len(q.state@) > 512 || expected != q.state@ {
        failed("GitHub callback failed validation"@)
    } else {
        match (state.config.github_client_id, state.config.github_client_secret) {
            (Some(id), Some(secret)) => StepV::Exchange { request: exchange_request(id, secret, q.code@), next },
            _ => failed("GitHub login is not configured"@),
        }
    }
}

/// Takes the browser back from GitHub.
pub fn github_callback(state: &AppState, headers: &RequestHeaders, q: GhCallback) -> (r: GithubStep)
    ensures
        r@ == callback_step(state@, headers@, q),
{
    let expected: String = login::text_or_empty(cookies::cookie_value(headers, cookies::GH_STATE_COOKIE));
    if expected.as_str().unicode_len() == 0 {
        return fail("Missing GitHub state");
    }
    let next: String = match cookies::cookie_value(headers, cookies::GH_NEXT_COOKIE) {
        Some(n) => n,
        None => "/".to_owned(),
    };
    proof {
        text::encode_utf8_injective(expected@, q.state@);
    }
    if q.code.as_str().unicode_len() == 0 || text::len_in_bytes(q.state.as_str()) > 512 || !text::ct_eq(
        expected.as_str().as_bytes(),
        q.state.as_str().as_bytes(),
    ) {
        return fail("GitHub callback failed validation");
    }
    match (&state.config.github_client_id, &state.config.github_client_secret) {
        (Some(id), Some(secret)) => {
            let ghost members = seq![
                ("client_id"@, JsonV::Str(id@)),
                ("client_secret"@, JsonV::Str(secret@)),
                ("code"@, JsonV::Str(q.code@)),
            ];
            let mut p: Vec<(String, Value)> = Vec::new();
            p.push(("client_id".to_owned(), json::json_str(id.clone())));
            p.push(("client_secret".to_owned(), json::json_str(secret.clone())));
            p.push(("code".to_owned(), json::json_str(q.code)));
            assert(json::pair_views(p@) =~= members);
            GithubStep::Exchange { request: json::json_object(p), next }
        },
        _ => fail("GitHub login is not configured"),
    }
}

/// The JSON that an answer holds.
pub open spec fn fetched_json(f: Fetched) -> Option<JsonV> {
    match f {
        Fetched::Body(b) => json::json_parsed(b@),
        _ => None,
    }
}

fn read_json(f: Fetched) -> (r: Option<Value>)
    ensures
        json::opt_view(r) == fetched_json(f),
{
    match f {
        Fetched::Body(b) => json::json_of_bytes(b.as_slice()),
        _ => None,
    }
}

/// The step after GitHub was asked for an access token.
pub open spec fn exchanged_step(answer: Option<JsonV>, next: Seq<char>) -> StepV {
    match answer {
        None => failed("GitHub token exchange returned invalid data"@),
        Some(v) => match json::member_str(v, "access_token"@) {
            None => failed("GitHub did not return an access token"@),
            Some(token) => StepV::FetchUser { token, next },
        },
    }
}

/// The step after GitHub was asked for an access token, which it answered.
pub fn github_exchanged(answer: Option<Value>, next: String) -> (r: GithubStep)
    ensures
        r@ == exchanged_step(json::opt_view(answer), next@),
{
    match answer {
        None => fail("GitHub token exchange returned invalid data"),
        Some(v) => match json::get_str(&v, "access_token") {
            None => fail("GitHub did not return an access token"),
            Some(token) => GithubStep::FetchUser { token, next },
        },
    }
}

/// The name of a GitHub user: the full one, or the login.
pub open spec fn display_name(user: JsonV) -> Seq<char> {
    match json::member_str(user, "name"@) {
        Some(n) => n,
        None => match json::member_str(user, "login"@) {
            Some(l) => l,
            None => "GitHub User"@,
        },
    }
}

/// The step after GitHub was asked who signs in.
pub open spec fn user_step(answer: Option<JsonV>, token: Seq<char>, next: Seq<char>) -> StepV {
    match answer {
        None => failed("GitHub user data invalid"@),
        Some(user) => match json::member_num(user, "id"@) {
            None => failed("GitHub user id missing"@),
            Some(n) => {
                let id = text::decimal(n as nat);
                match json::member_str(user, "email"@) {
                    Some(email) => StepV::Finish {
                        identity: IdentityV {
                            id,
                            name: display_name(user),
                            email: text::lowercase(email),
                            next,
                        },
                    },
                    None => StepV::FetchEmails { token, id, name: display_name(user), next },
                }
            },
        },
    }
}

/// The step after GitHub was asked who signs in, which it answered.
pub fn github_user(answer: Option<Value>, token: String, next: String) -> (r: GithubStep)
    ensures
        r@ == user_step(json::opt_view(answer), token@, next@),
{
    let user: Value = match answer {
        Some(v) => v,
        None => {
            return fail("GitHub user data invalid");
        },
    };
    let id: String = match json::get_num(&user, "id") {
        Some(n) => text::to_decimal(n),
        None => {
            return fail("GitHub user id missing");
        },
    };
    let name: String = match json::get_str(&user, "name") {
        Some(n) => n,
        None => match json::get_str(&user, "login") {
            Some(l) => l,
            None => "GitHub User".to_owned(),
        },
    };
    match json::get_str(&user, "email") {
        Some(email) => GithubStep::Finish {
            identity: GithubIdentity { id, name, email: email.to_lowercase(), next },
        },
        None => GithubStep::FetchEmails { token, id, name, next },
    }
}

/// Picks a primary email entry.
pub open spec fn primary_entry() -> spec_fn(JsonV) -> bool {
    |e: JsonV| json::member(e, "primary"@) == Some(JsonV::Bool(true))
}

/// The email of the first entry.
pub open spec fn first_email(list: Seq<JsonV>) -> Option<Seq<char>> {
    if list.len() == 0 {
        None
    } else {
        json::member_str(list[0], "email"@)
    }
}

/// The email of a list of entries: that of the first primary one, or of the first one.
pub open spec fn chosen_email(list: Seq<JsonV>) -> Option<Seq<char>> {
    match tables::first(list, primary_entry()) {
        Some(e) => match json::member_str(e, "email"@) {
            Some(s) => Some(s),
            None => first_email(list),
        },
        None => first_email(list),
    }
}

/// The email in an answer.
pub open spec fn email_in(answer: Option<JsonV>) -> Option<Seq<char>> {
    match answer {
        Some(JsonV::Arr(list)) => chosen_email(list),
        _ => None,
    }
}

/// Whether an email entry is a primary one.
fn is_primary(e: &Value) -> (r: bool)
    ensures
        r == primary_entry()(json::json_view(*e)),
{
    match json::json_get(e, "primary") {
        Some(b) => match b.as_bool() {
            Some(x) => x,
            None => false,
        },
        None => false,
    }
}

/// The place of the first primary entry.
fn find_primary(list: &Vec<Value>) -> (r: Option<usize>)
    ensures
        match r {
            Some(i) => i < list@.len() && tables::first(json::views(list@), primary_entry()) == Some(
                json::json_view(list@[i as int]),
            ),
            None => tables::first(json::views(list@), primary_entry()) is None,
        },
{
    let ghost p = primary_entry();
    let mut i: usize = 0;
    while i < list.len()
        invariant
            i <= list@.len(),
            p == primary_entry(),
            forall|j: int| 0 <= j < i ==> !p(#[trigger] json::views(list@)[j]),
        decreases list.len() - i,
    {
        assert(json::views(list@)[i as int] == json::json_view(list@[i as int]));
        if is_primary(&list[i]) {
            proof {
                tables::first_is(json::views(list@), p, i as int);
            }
            return Some(i);
        }
        i += 1;
    }
    proof {
        tables::first_none(json::views(list@), p);
    }
    None
}

fn choose_email(list: &Vec<Value>) -> (r: Option<String>)
    ensures
        text::opt_view(r) == chosen_email(json::views(list@)),
{
    let primary: Option<String> = match find_primary(list) {
        Some(i) => json::get_str(&list[i], "email"),
        None => None,
    };
    if primary.is_some() {
        return primary;
    }
    if list.len() == 0 {
        None
    } else {
        assert(json::views(list@)[0] == json::json_view(list@[0]));
        json::get_str(&list[0], "email")
    }
}

/// The step after GitHub was asked for email addresses.
pub open spec fn emails_step(answer: Option<JsonV>, id: Seq<char>, name: Seq<char>, next: Seq<char>) -> StepV {
    match email_in(answer) {
        None => failed("GitHub account has no accessible email"@),
        Some(e) => StepV::Finish { identity: IdentityV { id, name, email: text::lowercase(e), next } },
    }
}

/// The step after GitHub was asked for email addresses.
pub fn github_emails(answer: Option<Value>, id: String, name: String, next: String) -> (r: GithubStep)
    ensures
        r@ == emails_step(json::opt_view(answer), id@, name@, next@),
{
    let email: Option<String> = match &answer {
        Some(v) => match v.as_array() {
            Some(list) => choose_email(list),
            None => None,
        },
        None => None,
    };
    match email {
        None => fail("GitHub account has no accessible email"),
        Some(e) => GithubStep::Finish { identity: GithubIdentity { id, name, email: e.to_lowercase(), next } },
    }
}

/// The step after what a step asked for was done. A step that asks for nothing stays.
pub open spec fn advanced(step: StepV, f: Fetched) -> StepV {
    match step {
        StepV::Exchange { request, next } => if f is Unreachable {
            failed("GitHub token exchange failed"@)
        } else {
            exchanged_step(fetched_json(f), next)
        },
        StepV::FetchUser { token, next } => if f is Unreachable {
            failed("GitHub user fetch failed"@)
        } else {
            user_step(fetched_json(f), token, next)
        },
        StepV::FetchEmails { token, id, name, next } => emails_step(fetched_json(f), id, name, next),
        _ => step,
    }
}

/// The step after what a step asked for was done.
pub fn github_advance(step: GithubStep, fetched: Fetched) -> (r: GithubStep)
    ensures
        r@ == advanced(step@, fetched),
{
    let unreachable = match &fetched {
        Fetched::Unreachable => true,
        _ => false,
    };
    match step {
        GithubStep::Exchange { request, next } => if unreachable {
            fail("GitHub token exchange failed")
        } else {
            github_exchanged(read_json(fetched), next)
        },
        GithubStep::FetchUser { token, next } => if unreachable {
            fail("GitHub user fetch failed")
        } else {
            github_user(read_json(fetched), token, next)
        },
        GithubStep::FetchEmails { token, id, name, next } => github_emails(read_json(fetched), id, name, next),
        other => other,
    }
}

// ---------------------------------------------------------------------------------------------
// Signing in
// ---------------------------------------------------------------------------------------------

/// The account of an identity: the one that is linked to it, or the one with its email, which is then
/// linked, or a new one. Where none can be made, nothing changes.
pub open spec fn account_for(state: StateV, who: IdentityV, token: Seq<char>, now: u64) -> Option<(StateV, UserV)> {
    match state.store.with_github(who.id) {
        Some(u) => Some((state, u)),
        None => match state.store.with_email(who.email) {
            Some(u) => Some(
                (
                    state.step(ChangeV::LinkGithub { user_id: u.id, github_id: who.id }).note(
                        "github_link"@,
                        Some(u.id),
                        login::detail1("gh_id"@, who.id),
                        now,
                    ),
                    u,
                ),
            ),
            None => {
                let id = login::user_id(token);
                let c = store::new_user(id, who.email, who.name, None, Some(who.id), false, now);
                if state.store.accepts(c) {
                    Some(
                        (
                            state.step(c).note("register_github"@, Some(id), login::no_detail(), now),
                            UserV {
                                id,
                                email: who.email,
                                name: who.name,
                                password_hash: None,
                                github_id: Some(who.id),
                                is_admin: false,
                                disabled: false,
                            },
                        ),
                    )
                } else {
                    None
                }
            },
        },
    }
}

/// The account of an identity.
fn find_or_create(state: &mut AppState, who: &GithubIdentity, token: &str, now: u64) -> (r: Option<User>)
    ensures
        match account_for(old(state)@, who@, token@, now) {
            Some(p) => final(state)@ == p.0 && r is Some && r->0@ == p.1,
            None => final(state)@ == old(state)@ && r is None,
        },
{
    match state.store.user_by_github_id(who.id.as_str()) {
        Ok(Some(u)) => {
            return Some(u);
        },
        _ => {},
    }
    match state.store.user_by_email(who.email.as_str()) {
        Ok(Some(u)) => {
            let _ = state.store.link_github(u.id.as_str(), who.id.as_str());
            let detail: Value = login::make_detail1("gh_id", who.id.as_str());
            state.note("github_link", Some(u.id.clone()), detail, now);
            return Some(u);
        },
        _ => {},
    }
    let mut id: String = "usr_".to_owned();
    id.append(token);
    match state.store.create_user(
        id.as_str(),
        who.email.as_str(),
        who.name.as_str(),
        None,
        Some(who.id.clone()),
        false,
        now,
    ) {
        Err(_) => None,
        Ok(()) => {
            state.note("register_github", Some(id.clone()), login::make_no_detail(), now);
            Some(
                User {
                    id,
                    email: who.email.clone(),
                    name: who.name.clone(),
                    password_hash: None,
                    github_id: Some(who.id.clone()),
                    is_admin: false,
                    disabled: false,
                },
            )
        },
    }
}

/// What comes of a sign-in with a GitHub account: `token` makes the identifier of a new person, and
/// `sid` is the identifier for a new session.
pub open spec fn finish_outcome(state: StateV, who: IdentityV, token: Seq<char>, sid: Seq<char>, now: u64) -> (
    StateV,
    ReplyV,
) {
    match account_for(state, who, token, now) {
        None => (state, pages::error_reply("Could not provision account"@)),
        Some(p) => if p.1.disabled {
            (p.0, pages::error_reply("Account disabled"@))
        } else {
            (
                login::bootstrapped(p.0, p.1.email).step(
                    store::new_session(sid, p.1.id, state.config.session_ttl, ""@, now),
                ).note("login_github"@, Some(p.1.id), login::no_detail(), now),
                http::redirect(pages::next_path(who.next)).with_cookie(
                    cookies::session_cookie(sid, state.config.session_ttl),
                ).with_cookie(cookies::github_removed(cookies::GH_STATE_COOKIE@)).with_cookie(
                    cookies::github_removed(cookies::GH_NEXT_COOKIE@),
                ),
            )
        },
    }
}

/// Signs a person in with a GitHub account: `token` makes the identifier of a new person, and `sid` is
/// the identifier for a new session.
pub fn github_finish_at(state: &mut AppState, who: GithubIdentity, token: String, sid: String, now: u64) -> (r: Reply)
    ensures
        (final(state)@, r@) == finish_outcome(old(state)@, who@, token@, sid@, now),
{
    let user: User = match find_or_create(state, &who, token.as_str(), now) {
        Some(u) => u,
        None => {
            return pages::err_page("Could not provision account");
        },
    };
    if user.disabled {
        return pages::err_page("Account disabled");
    }
    login::promote_bootstrap_admin(state, user.email.as_str());
    let ttl: u64 = state.config.session_ttl;
    let _ = state.store.create_session(sid.as_str(), user.id.as_str(), ttl, "", now);
    state.note("login_github", Some(user.id.clone()), login::make_no_detail(), now);
    Reply::redirect(pages::safe_next(who.next.as_str())).with_cookie(
        cookies::set_session(sid.as_str(), ttl),
    ).with_cookie(cookies::remove_github(cookies::GH_STATE_COOKIE)).with_cookie(
        cookies::remove_github(cookies::GH_NEXT_COOKIE),
    )
}

/// Signs a person in with a GitHub account.
pub fn github_finish(state: &mut AppState, who: GithubIdentity) -> (r: Reply)
    ensures
        exists|token: Seq<char>, sid: Seq<char>, now: u64|
            crypto::token_text(token, 16) && crypto::token_text(sid, 32) && (final(state)@, r@)
                == #[trigger] finish_outcome(old(state)@, who@, token, sid, now),
{
    let token: String = crypto::rand_token(16);
    let sid: String = crypto::rand_token(32);
    let now: u64 = crate::tokens::now_epoch();
    github_finish_at(state, who, token, sid, now)
}

} // verus!
