//! Signing in, creating accounts, signing out, and the cookies for it.

use argus::config::Config;
use argus::cookies::{basic_credentials, bearer_token, cookie_value, csrf_ok, current_user, ensure_csrf_cookie};
use argus::crypto::SigningKey;
use argus::crypto::hash_password;
use argus::http::{AppState, Body, Reply, RequestHeaders};
use argus::login::{login_form, login_form_with, login_submit, login_submit_at, logout, logout_get, promote_bootstrap_admin, register_form_with, register_submit, register_submit_at, LoginForm, NextQuery, RegisterForm, RegisterQuery};
use argus::rows::Session;
use argus::store::Store;
use argus::store::User;
use argus::tables::Change;
use base64::Engine;
use base64::engine::general_purpose::STANDARD;
use rsa::pkcs8::{EncodePrivateKey, LineEnding};
use rsa::{BigUint, RsaPrivateKey};

/// A fixed 1024-bit key.
fn key() -> SigningKey {
    let p = BigUint::parse_bytes(b"13284012994602313665582702863433168659555201018807432869647404198251222984476210382353680421978178417971714920918718875143620477739773308505629948875784689", 10).unwrap();
    let q = BigUint::parse_bytes(b"11057026016947941969457018828438387724524283616086881373289692098949807082653458094846225809042866118755490992104190819828964348434841903354964895625288477", 10).unwrap();
    let private = RsaPrivateKey::from_p_q(p, q, BigUint::from(65537u32)).unwrap();
    let pem = private.to_pkcs8_pem(LineEnding::LF).unwrap();
    SigningKey::from_pem(pem.as_str()).unwrap()
}

fn config() -> Config {
    Config {
        listen: "127.0.0.1:0".to_string(),
        database: String::new(),
        external_url: "http://127.0.0.1:8443".to_string(),
        signing_key_pem_path: None,
        access_token_ttl: 600,
        session_ttl: 3600,
        github_client_id: None,
        github_client_secret: None,
        bootstrap_admin_email: Some("admin@test.dev".to_string()),
    }
}

fn test_state() -> AppState {
    AppState { config: config(), store: Store::new(), key: key() }
}

fn no_headers() -> RequestHeaders {
    RequestHeaders { cookie: None, authorization: None, forwarded_for: None }
}

fn with_cookie(cookie: &str) -> RequestHeaders {
    RequestHeaders { cookie: Some(cookie.to_string()), authorization: None, forwarded_for: None }
}

fn with_auth(auth: String) -> RequestHeaders {
    RequestHeaders { cookie: None, authorization: Some(auth), forwarded_for: None }
}

fn basic(id: &str, secret: &str) -> RequestHeaders {
    with_auth(format!("Basic {}", STANDARD.encode(format!("{id}:{secret}"))))
}

fn html(r: &Reply) -> String {
    match &r.body {
        Body::Html(s) => s.clone(),
        _ => panic!("no page: {r:?}"),
    }
}

fn extract_cookie(cookies: &[String], name: &str) -> String {
    for c in cookies {
        let kv = c.split(';').next().unwrap();
        if let Some((k, v)) = kv.split_once('=') {
            if k == name {
                return v.to_string();
            }
        }
    }
    String::new()
}

fn login(email: &str, password: &str, next: &str, csrf: &str) -> LoginForm {
    LoginForm {
        email: email.to_string(),
        password: password.to_string(),
        next: next.to_string(),
        csrf: csrf.to_string(),
    }
}

fn account(email: &str, name: &str, password: &str) -> RegisterForm {
    RegisterForm {
        name: name.to_string(),
        email: email.to_string(),
        password: password.to_string(),
        next: "/home".to_string(),
        csrf: "tok".to_string(),
    }
}

fn state_with(email: &str, disabled: bool, hash: Option<String>) -> AppState {
    let mut state = test_state();
    let user = User {
        id: "usr_1".to_string(),
        email: email.to_string(),
        name: "Ann".to_string(),
        password_hash: hash,
        github_id: None,
        is_admin: false,
        disabled,
    };
    state.store = Store::load(
        vec![user],
        Vec::<Session>::new(),
        Vec::new(),
        Vec::new(),
        Vec::new(),
        Vec::new(),
        Vec::new(),
        Vec::new(),
    );
    state
}

fn events(state: &mut AppState) -> Vec<String> {
    let mut out = Vec::new();
    for c in state.store.take_journal() {
        if let Change::InsertAudit { entry } = c {
            out.push(format!("{} {}", entry.event, entry.detail));
        }
    }
    out
}

#[test]
fn cookies_are_found_by_name() {
    let h = with_cookie("a=1; argus_csrf=x=y ;b=2; a=3;novalue");
    assert_eq!(cookie_value(&h, "a"), Some("1".to_string()));
    assert_eq!(cookie_value(&h, "argus_csrf"), Some("x=y".to_string()));
    assert_eq!(cookie_value(&h, "b"), Some("2".to_string()));
    assert_eq!(cookie_value(&h, "novalue"), None);
    assert_eq!(cookie_value(&no_headers(), "a"), None);
}

#[test]
fn the_csrf_token_must_be_that_of_the_cookie() {
    let h = with_cookie("argus_csrf=abc");
    assert!(csrf_ok(&h, "abc"));
    assert!(!csrf_ok(&h, "abd"));
    assert!(!csrf_ok(&h, ""));
    assert!(!csrf_ok(&with_cookie("argus_csrf="), ""));
    assert!(!csrf_ok(&no_headers(), ""));
    let long = "x".repeat(128);
    assert!(csrf_ok(&with_cookie(&format!("argus_csrf={long}")), &long));
    let longer = "x".repeat(129);
    assert!(!csrf_ok(&with_cookie(&format!("argus_csrf={longer}")), &longer));
}

#[test]
fn a_csrf_token_is_kept_or_made() {
    assert_eq!(ensure_csrf_cookie(&with_cookie("argus_csrf=abc")), "abc");
    let fresh = ensure_csrf_cookie(&no_headers());
    assert_eq!(fresh.len(), 43);
    assert_ne!(fresh, ensure_csrf_cookie(&no_headers()));
    assert_eq!(ensure_csrf_cookie(&with_cookie(&format!("argus_csrf={}", "x".repeat(129)))).len(), 43);
    assert_eq!(ensure_csrf_cookie(&with_cookie("argus_csrf=")).len(), 43);
}

#[test]
fn credentials_are_read_from_the_header() {
    let pair = |a: &str, b: &str| Some((a.to_string(), b.to_string()));
    assert_eq!(basic_credentials(&basic("id", "se:cret")), pair("id", "se:cret"));
    assert_eq!(basic_credentials(&basic("", "")), pair("", ""));
    assert_eq!(basic_credentials(&with_auth("Basic aWQ=".to_string())), None);
    assert_eq!(basic_credentials(&with_auth("Basic aWQ6cw".to_string())), None);
    assert_eq!(basic_credentials(&with_auth("Basic /zo=".to_string())), None);
    assert_eq!(basic_credentials(&with_auth("basic aWQ6cw==".to_string())), None);
    assert_eq!(basic_credentials(&no_headers()), None);
    assert_eq!(bearer_token(&with_auth("Bearer abc".to_string())), "abc");
    assert_eq!(bearer_token(&with_auth("Basic abc".to_string())), "");
    assert_eq!(bearer_token(&no_headers()), "");
}

#[test]
fn the_sign_in_page_carries_the_token_and_the_next_page() {
    let state = test_state();
    let q = NextQuery { next: Some("/a?b=c&d".to_string()) };
    let r = login_form_with(&state, q, &no_headers(), "tok".to_string());
    assert_eq!(r.status, 200);
    assert_eq!(r.cookies, vec!["argus_csrf=tok; Path=/; Max-Age=3600; HttpOnly; SameSite=Lax; Secure"]);
    let b = html(&r);
    assert!(b.contains("name=\"csrf\" value=\"tok\""));
    assert!(b.contains("name=\"next\" value=\"%2Fa%3Fb%3Dc%26d\""));
    assert!(b.contains("<a href=\"/register?next=%2Fa%3Fb%3Dc%26d\">"));
    assert!(b.contains("disabled title='GitHub login not configured'"));
    let mut with_github = test_state();
    with_github.config.github_client_id = Some("gh".to_string());
    let r = login_form(&with_github, NextQuery { next: None }, &with_cookie("argus_csrf=mine"));
    assert!(html(&r).contains("<button class=\"gh\" >Sign in with GitHub</button>"));
    assert_eq!(extract_cookie(&r.cookies, "argus_csrf"), "mine");
}

#[test]
fn the_registration_page_carries_the_token_and_the_next_page() {
    let r = register_form_with(
        RegisterQuery { next: Some("/x y".to_string()) },
        &no_headers(),
        "tok".to_string(),
    );
    assert_eq!(r.status, 200);
    let b = html(&r);
    assert!(b.contains("<form method=\"post\" action=\"/register\">"));
    assert!(b.contains("name=\"next\" value=\"%2Fx%20y\""));
    assert_eq!(extract_cookie(&r.cookies, "argus_csrf"), "tok");
}

#[test]
fn signing_in_starts_a_session() {
    let mut state = state_with("ann@test.dev", false, Some(hash_password("correct horse").unwrap()));
    let h = RequestHeaders {
        cookie: Some("argus_csrf=tok".to_string()),
        authorization: None,
        forwarded_for: Some("1.2.3.4".to_string()),
    };
    let r = login_submit_at(
        &mut state,
        &h,
        login("  Ann@TEST.dev ", "correct horse", "/home", "tok"),
        "sid1".to_string(),
        1000,
    );
    assert_eq!(r.status, 303);
    assert_eq!(r.location, Some("/home".to_string()));
    assert_eq!(
        r.cookies,
        vec![
            "argus_session=sid1; Path=/; Max-Age=3600; HttpOnly; SameSite=Lax; Secure",
            "argus_csrf=; Path=/; Max-Age=0; HttpOnly",
        ]
    );
    let session = with_cookie("argus_session=sid1");
    assert_eq!(current_user(&state, &session, 4599).unwrap().id, "usr_1");
    assert!(current_user(&state, &session, 4600).is_none());
    let j = state.store.take_journal();
    assert!(matches!(&j[0], Change::InsertSession { session } if session.ip == "1.2.3.4"));
    assert!(matches!(&j[1], Change::InsertAudit { entry } if entry.event == "login_password" && entry.detail == "{}"));
    assert_eq!(j.len(), 2);
}

#[test]
fn wrong_credentials_are_refused_and_noted() {
    let h = with_cookie("argus_csrf=tok");
    let hash = hash_password("correct horse").unwrap();
    let mut state = state_with("ann@test.dev", false, Some(hash.clone()));
    let r = login_submit(&mut state, &h, login("Ann@test.dev", "wrong", "/", "tok"));
    assert_eq!(r.status, 401);
    assert!(html(&r).contains("Invalid email or password."));
    assert_eq!(events(&mut state), vec!["login_failed {\"email\":\"ann@test.dev\"}"]);
    let r = login_submit(&mut state, &h, login("bob@test.dev", "correct horse", "/", "tok"));
    assert_eq!(r.status, 401);
    let mut disabled = state_with("ann@test.dev", true, Some(hash));
    assert_eq!(login_submit(&mut disabled, &h, login("ann@test.dev", "correct horse", "/", "tok")).status, 401);
    let mut no_password = state_with("ann@test.dev", false, None);
    assert_eq!(login_submit(&mut no_password, &h, login("ann@test.dev", "", "/", "tok")).status, 401);
}

#[test]
fn forms_without_the_csrf_token_change_nothing() {
    let mut state = state_with("ann@test.dev", false, Some(hash_password("correct horse").unwrap()));
    let h = with_cookie("argus_csrf=tok");
    let r = login_submit(&mut state, &h, login("ann@test.dev", "correct horse", "/", "other"));
    assert_eq!(r.status, 400);
    assert!(html(&r).contains("Invalid CSRF token"));
    let mut f = account("new@test.dev", "New", "0123456789");
    f.csrf = String::new();
    let r = register_submit(&mut state, &h, f);
    assert_eq!(r.status, 400);
    assert!(html(&r).contains("Invalid CSRF token"));
    assert!(state.store.take_journal().is_empty());
}

#[test]
fn the_next_page_is_never_off_site() {
    let mut state = state_with("ann@test.dev", false, Some(hash_password("correct horse").unwrap()));
    let h = with_cookie("argus_csrf=tok");
    let r = login_submit(&mut state, &h, login("ann@test.dev", "correct horse", "//evil.example", "tok"));
    assert_eq!(r.location, Some("/".to_string()));
}

#[test]
fn the_bootstrap_admin_is_promoted() {
    let mut state = state_with("admin@test.dev", false, Some(hash_password("correct horse").unwrap()));
    let h = with_cookie("argus_csrf=tok");
    assert!(!state.store.user_by_id("usr_1").unwrap().unwrap().is_admin);
    login_submit(&mut state, &h, login("admin@test.dev", "correct horse", "/", "tok"));
    assert!(state.store.user_by_id("usr_1").unwrap().unwrap().is_admin);
    let mut other = state_with("ann@test.dev", false, None);
    promote_bootstrap_admin(&mut other, "ann@test.dev");
    assert!(!other.store.user_by_id("usr_1").unwrap().unwrap().is_admin);
}

#[test]
fn a_demoted_bootstrap_admin_stays_demoted() {
    let hash = hash_password("correct horse").unwrap();
    let mut state = state_with("admin@test.dev", false, Some(hash.clone()));
    let h = with_cookie("argus_csrf=tok");
    login_submit(&mut state, &h, login("admin@test.dev", "correct horse", "/", "tok"));
    assert!(state.store.was_promoted("admin@test.dev"));
    state.store.take_journal();
    login_submit(&mut state, &h, login("admin@test.dev", "correct horse", "/", "tok"));
    assert!(!state.store.take_journal().iter().any(|c| matches!(c, Change::PromoteAdmin { .. })));
    let demoted = User { is_admin: false, ..state.store.user_by_id("usr_1").unwrap().unwrap() };
    state.store = Store::load(
        vec![demoted],
        Vec::<Session>::new(),
        Vec::new(),
        Vec::new(),
        Vec::new(),
        Vec::new(),
        Vec::new(),
        vec!["admin@test.dev".to_string()],
    );
    login_submit(&mut state, &h, login("admin@test.dev", "correct horse", "/", "tok"));
    assert!(!state.store.user_by_id("usr_1").unwrap().unwrap().is_admin);
    promote_bootstrap_admin(&mut state, "admin@test.dev");
    assert!(!state.store.user_by_id("usr_1").unwrap().unwrap().is_admin);
}

#[test]
fn a_promotion_of_nobody_leaves_the_first_sign_in_to_come() {
    let mut state = test_state();
    promote_bootstrap_admin(&mut state, "admin@test.dev");
    assert!(!state.store.was_promoted("admin@test.dev"));
    let h = with_cookie("argus_csrf=tok");
    assert_eq!(register_submit(&mut state, &h, account("admin@test.dev", "Admin", "0123456789")).status, 303);
    let u = state.store.user_by_email("admin@test.dev").unwrap().unwrap();
    assert!(u.is_admin);
    assert!(u.password_hash.unwrap().starts_with("$argon2id$"));
}

#[test]
fn registering_creates_an_account_that_can_sign_in() {
    let mut state = test_state();
    let h = with_cookie("argus_csrf=tok");
    let hash = hash_password("0123456789").unwrap();
    let r = register_submit_at(
        &mut state,
        &h,
        account(" New@Test.dev ", "  New Person ", "0123456789"),
        Some(hash.clone()),
        "tid".to_string(),
        "sid".to_string(),
        1000,
    );
    assert_eq!(r.status, 303);
    assert_eq!(r.location, Some("/home".to_string()));
    let u = state.store.user_by_email("new@test.dev").unwrap().unwrap();
    assert_eq!((u.id.as_str(), u.name.as_str()), ("usr_tid", "New Person"));
    assert_eq!(u.password_hash, Some(hash));
    assert_eq!(state.store.session_user("sid", 1000).unwrap().unwrap().id, "usr_tid");
    let r = login_submit(&mut state, &h, login("new@test.dev", "0123456789", "/", "tok"));
    assert_eq!(r.status, 303);
    assert_eq!(
        events(&mut state),
        vec!["register {\"email\":\"new@test.dev\"}", "login_password {}"]
    );
}

#[test]
fn bad_registrations_are_refused() {
    let mut state = state_with("ann@test.dev", false, None);
    let h = with_cookie("argus_csrf=tok");
    let mut try_it = |f: RegisterForm| html(&register_submit(&mut state, &h, f));
    assert!(try_it(account("no-at", "N", "0123456789")).contains("Invalid input"));
    assert!(try_it(account("n@x", " ", "0123456789")).contains("Invalid input"));
    assert!(try_it(account("n@x", &"n".repeat(201), "0123456789")).contains("Invalid input"));
    assert!(try_it(account(&format!("{}@x", "e".repeat(253)), "N", "0123456789")).contains("Invalid input"));
    assert!(try_it(account("n@x", "N", "012345678")).contains("Password must be 10–1024 characters"));
    assert!(try_it(account("n@x", "N", &"p".repeat(1025))).contains("Password must be 10–1024 characters"));
    assert!(try_it(account("ANN@test.dev", "N", "0123456789")).contains("An account with that email already exists"));
    let r = register_submit_at(
        &mut state,
        &h,
        account("n@x", "N", "0123456789"),
        None,
        "t".to_string(),
        "s".to_string(),
        1,
    );
    assert!(html(&r).contains("Internal error"));
    let r = register_submit_at(
        &mut state,
        &h,
        account("n@x", "N", "0123456789"),
        Some("h".to_string()),
        "t".to_string(),
        "s".to_string(),
        u64::MAX,
    );
    assert!(html(&r).contains("Could not create account"));
    assert!(state.store.take_journal().is_empty());
}

#[test]
fn signing_out_ends_the_session() {
    let mut state = state_with("ann@test.dev", false, None);
    state.store.create_session("sid", "usr_1", 60, "", 1000).unwrap();
    let h = with_cookie("argus_session=sid");
    assert!(current_user(&state, &h, 1000).is_some());
    let r = logout(&mut state, &h);
    assert_eq!(r.status, 200);
    assert!(html(&r).contains("You are signed out."));
    assert_eq!(r.cookies, vec!["argus_session=; Path=/; Max-Age=0; HttpOnly; SameSite=Lax"]);
    assert!(current_user(&state, &h, 1000).is_none());
    assert_eq!(logout_get(&mut state, &no_headers()).status, 200);
}
