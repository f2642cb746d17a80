//! Signing in with a GitHub account.

use argus::config::Config;
use argus::crypto::SigningKey;
use argus::github::{github_advance, github_callback, github_finish, github_finish_at, github_start, github_start_with, Fetched, GhCallback, GithubIdentity, GithubStep};
use argus::http::{AppState, Body, Reply, RequestHeaders};
use argus::login::NextQuery;
use argus::rows::Session;
use argus::store::Store;
use argus::store::User;
use argus::tables::Change;
use rsa::pkcs8::{EncodePrivateKey, LineEnding};
use rsa::{BigUint, RsaPrivateKey};

/// A fixed 1024-bit key.
fn key() -> SigningKey {
    let p = BigUint::parse_bytes(b"13284012994602313665582702863433168659555201018807432869647404198251222984476210382353680421978178417971714920918718875143620477739773308505629948875784689", 10).unwrap();
    let q = BigUint::parse_bytes(b"11057026016947941969457018828438387724524283616086881373289692098949807082653458094846225809042866118755490992104190819828964348434841903354964895625288477", 10).unwrap();
    let private = RsaPrivateKey::from_p_q(p, q, BigUint::from(65537u32)).unwrap();
    let pem = private.to_pkcs8_pem(LineEnding::LF).unwrap();
    SigningKey::from_pem(pem.as_str()).unwrap()
}

fn config() -> Config {
    Config {
        listen: "127.0.0.1:0".to_string(),
        database: String::new(),
        external_url: "http://127.0.0.1:8443".to_string(),
        signing_key_pem_path: None,
        access_token_ttl: 600,
        session_ttl: 3600,
        github_client_id: None,
        github_client_secret: None,
        bootstrap_admin_email: Some("admin@test.dev".to_string()),
    }
}

fn test_state() -> AppState {
    AppState { config: config(), store: Store::new(), key: key() }
}

fn no_headers() -> RequestHeaders {
    RequestHeaders { cookie: None, authorization: None, forwarded_for: None }
}

fn with_cookie(cookie: &str) -> RequestHeaders {
    RequestHeaders { cookie: Some(cookie.to_string()), authorization: None, forwarded_for: None }
}

fn html(r: &Reply) -> String {
    match &r.body {
        Body::Html(s) => s.clone(),
        _ => panic!("no page: {r:?}"),
    }
}

fn extract_cookie(cookies: &[String], name: &str) -> String {
    for c in cookies {
        let kv = c.split(';').next().unwrap();
        if let Some((k, v)) = kv.split_once('=') {
            if k == name {
                return v.to_string();
            }
        }
    }
    String::new()
}

fn configured() -> AppState {
    let mut state = test_state();
    state.config.github_client_id = Some("gh-id".to_string());
    state.config.github_client_secret = Some("gh-secret".to_string());
    state
}

fn callback(code: &str, state: &str) -> GhCallback {
    GhCallback { code: code.to_string(), state: state.to_string() }
}

fn body(s: &str) -> Fetched {
    Fetched::Body(s.as_bytes().to_vec())
}

fn message(step: GithubStep) -> String {
    match step {
        GithubStep::Answer { reply } => html(&reply),
        other => panic!("{other:?}"),
    }
}

fn fetch_user() -> GithubStep {
    GithubStep::FetchUser { token: "t".to_string(), next: "/n".to_string() }
}

fn fetch_emails() -> GithubStep {
    GithubStep::FetchEmails {
        token: "t".to_string(),
        id: "7".to_string(),
        name: "Octo".to_string(),
        next: "/n".to_string(),
    }
}

fn who(id: &str, email: &str) -> GithubIdentity {
    GithubIdentity {
        id: id.to_string(),
        name: "Octo".to_string(),
        email: email.to_string(),
        next: "/n".to_string(),
    }
}

#[test]
fn the_browser_is_sent_to_github() {
    let q = NextQuery { next: Some("/n".to_string()) };
    let r = github_start_with(&configured(), q, "st".to_string());
    assert_eq!(r.status, 303);
    assert_eq!(
        r.location.unwrap(),
        "https://github.com/login/oauth/authorize?client_id=gh-id&scope=read:user%20user:email&state=st"
    );
    assert_eq!(
        r.cookies,
        vec![
            "argus_gh_state=st; Path=/; Max-Age=600; HttpOnly; SameSite=Lax; Secure",
            "argus_gh_next=/n; Path=/; Max-Age=600; HttpOnly; SameSite=Lax; Secure",
        ]
    );
    let r = github_start(&configured(), NextQuery { next: Some("//evil".to_string()) });
    assert_eq!(extract_cookie(&r.cookies, "argus_gh_next"), "/");
    assert_eq!(extract_cookie(&r.cookies, "argus_gh_state").len(), 32);
    let r = github_start(&test_state(), NextQuery { next: None });
    assert!(html(&r).contains("GitHub login is not configured"));
}

#[test]
fn the_callback_is_validated() {
    let s = configured();
    let h = with_cookie("argus_gh_state=st; argus_gh_next=/n");
    assert!(message(github_callback(&s, &no_headers(), callback("c", "st"))).contains("Missing GitHub state"));
    assert!(message(github_callback(&s, &with_cookie("argus_gh_state="), callback("c", ""))).contains("Missing GitHub state"));
    for q in [callback("", "st"), callback("c", "su"), callback("c", &"s".repeat(513))] {
        assert!(message(github_callback(&s, &h, q)).contains("GitHub callback failed validation"));
    }
    let long = "s".repeat(513);
    let q = callback("c", &long);
    let h2 = with_cookie(&format!("argus_gh_state={long}"));
    assert!(message(github_callback(&s, &h2, q)).contains("GitHub callback failed validation"));
    assert!(message(github_callback(&test_state(), &h, callback("c", "st"))).contains("GitHub login is not configured"));
    match github_callback(&s, &h, callback("c", "st")) {
        GithubStep::Exchange { request, next } => {
            assert_eq!(
                request.to_string(),
                r#"{"client_id":"gh-id","client_secret":"gh-secret","code":"c"}"#
            );
            assert_eq!(next, "/n");
        }
        other => panic!("{other:?}"),
    }
    match github_callback(&s, &with_cookie("argus_gh_state=st"), callback("c", "st")) {
        GithubStep::Exchange { next, .. } => assert_eq!(next, "/"),
        other => panic!("{other:?}"),
    }
}

#[test]
fn the_access_token_is_taken_from_the_answer() {
    let step = || github_callback(&configured(), &with_cookie("argus_gh_state=st"), callback("c", "st"));
    assert!(message(github_advance(step(), Fetched::Unreachable)).contains("GitHub token exchange failed"));
    let invalid = "GitHub token exchange returned invalid data";
    assert!(message(github_advance(step(), Fetched::Broken)).contains(invalid));
    assert!(message(github_advance(step(), body("not JSON"))).contains(invalid));
    let missing = "GitHub did not return an access token";
    assert!(message(github_advance(step(), body(r#"{"access_token":1}"#))).contains(missing));
    assert!(message(github_advance(step(), body("[]"))).contains(missing));
    match github_advance(step(), body(r#"{"access_token":"gho"}"#)) {
        GithubStep::FetchUser { token, next } => assert_eq!((token.as_str(), next.as_str()), ("gho", "/")),
        other => panic!("{other:?}"),
    }
}

#[test]
fn the_identity_is_taken_from_the_answer() {
    assert!(message(github_advance(fetch_user(), Fetched::Unreachable)).contains("GitHub user fetch failed"));
    assert!(message(github_advance(fetch_user(), Fetched::Broken)).contains("GitHub user data invalid"));
    assert!(message(github_advance(fetch_user(), body(r#"{"id":"7"}"#))).contains("GitHub user id missing"));
    match github_advance(fetch_user(), body(r#"{"id":7,"login":"octo","name":"Octo Cat","email":"O@X.dev"}"#)) {
        GithubStep::Finish { identity } => {
            assert_eq!((identity.id.as_str(), identity.name.as_str()), ("7", "Octo Cat"));
            assert_eq!((identity.email.as_str(), identity.next.as_str()), ("o@x.dev", "/n"));
        }
        other => panic!("{other:?}"),
    }
    match github_advance(fetch_user(), body(r#"{"id":7,"login":"octo","name":null,"email":null}"#)) {
        GithubStep::FetchEmails { token, id, name, next } => {
            assert_eq!((token.as_str(), id.as_str(), name.as_str(), next.as_str()), ("t", "7", "octo", "/n"));
        }
        other => panic!("{other:?}"),
    }
    match github_advance(fetch_user(), body(r#"{"id":7}"#)) {
        GithubStep::FetchEmails { name, .. } => assert_eq!(name, "GitHub User"),
        other => panic!("{other:?}"),
    }
}

#[test]
fn the_email_is_the_primary_or_the_first() {
    let email = |s: &str| match github_advance(fetch_emails(), body(s)) {
        GithubStep::Finish { identity } => Some(identity.email),
        GithubStep::Answer { reply } => {
            assert!(html(&reply).contains("GitHub account has no accessible email"));
            None
        }
        other => panic!("{other:?}"),
    };
    assert_eq!(
        email(r#"[{"email":"a@x"},{"email":"B@x","primary":true},{"email":"c@x","primary":true}]"#),
        Some("b@x".to_string())
    );
    assert_eq!(email(r#"[{"email":"a@x"},{"email":"b@x","primary":false}]"#), Some("a@x".to_string()));
    assert_eq!(email(r#"[{"email":"a@x"},{"primary":true}]"#), Some("a@x".to_string()));
    assert_eq!(email(r#"[{"primary":"yes"},{"email":"a@x"}]"#), None);
    assert_eq!(email("[]"), None);
    assert_eq!(email("{}"), None);
    assert!(message(github_advance(fetch_emails(), Fetched::Unreachable)).contains("no accessible email"));
    assert!(message(github_advance(fetch_emails(), Fetched::Broken)).contains("no accessible email"));
}

#[test]
fn a_step_that_asks_for_nothing_stays() {
    match github_advance(GithubStep::Finish { identity: who("7", "o@x") }, Fetched::Broken) {
        GithubStep::Finish { identity } => assert_eq!(identity.id, "7"),
        other => panic!("{other:?}"),
    }
}

#[test]
fn a_new_person_gets_an_account() {
    let mut s = configured();
    let r = github_finish_at(&mut s, who("7", "o@x"), "tid".to_string(), "sid".to_string(), 1000);
    assert_eq!(r.status, 303);
    assert_eq!(r.location, Some("/n".to_string()));
    assert_eq!(
        r.cookies,
        vec![
            "argus_session=sid; Path=/; Max-Age=3600; HttpOnly; SameSite=Lax; Secure",
            "argus_gh_state=; Path=/; Max-Age=0",
            "argus_gh_next=; Path=/; Max-Age=0",
        ]
    );
    let u = s.store.user_by_github_id("7").unwrap().unwrap();
    assert_eq!((u.id.as_str(), u.email.as_str(), u.name.as_str()), ("usr_tid", "o@x", "Octo"));
    assert_eq!(s.store.session_user("sid", 1000).unwrap().unwrap().id, "usr_tid");
    let again = github_finish(&mut s, who("7", "other@x"));
    assert_eq!(again.status, 303);
    assert!(s.store.user_by_email("other@x").unwrap().is_none());
    let events: Vec<String> = s
        .store
        .take_journal()
        .into_iter()
        .filter_map(|c| match c {
            Change::InsertAudit { entry } => Some(entry.event),
            _ => None,
        })
        .collect();
    assert_eq!(events, vec!["register_github", "login_github", "login_github"]);
}

#[test]
fn an_account_with_the_same_email_is_linked() {
    let mut s = configured();
    s.store.create_user("u", "admin@test.dev", "Ann", None, None, false, 0).unwrap();
    s.store.take_journal();
    let r = github_finish_at(&mut s, who("7", "admin@test.dev"), "t".to_string(), "sid".to_string(), 1000);
    assert_eq!(r.status, 303);
    let u = s.store.user_by_github_id("7").unwrap().unwrap();
    assert_eq!(u.id, "u");
    assert!(u.is_admin);
    let j = s.store.take_journal();
    assert!(matches!(&j[0], Change::LinkGithub { user_id, github_id } if user_id == "u" && github_id == "7"));
    assert!(matches!(&j[1], Change::InsertAudit { entry }
        if entry.event == "github_link" && entry.detail == r#"{"gh_id":"7"}"#));
}

#[test]
fn a_disabled_account_is_refused() {
    let mut s = configured();
    let user = User {
        id: "u".to_string(),
        email: "o@x".to_string(),
        name: "O".to_string(),
        password_hash: None,
        github_id: Some("7".to_string()),
        is_admin: false,
        disabled: true,
    };
    s.store = Store::load(
        vec![user],
        Vec::<Session>::new(),
        Vec::new(),
        Vec::new(),
        Vec::new(),
        Vec::new(),
        Vec::new(),
        Vec::new(),
    );
    let r = github_finish(&mut s, who("7", "o@x"));
    assert!(html(&r).contains("Account disabled"));
    assert!(s.store.take_journal().is_empty());
}

#[test]
fn an_account_that_cannot_be_stored_is_refused() {
    let mut s = configured();
    let r = github_finish_at(&mut s, who("7", "o@x"), "t".to_string(), "sid".to_string(), u64::MAX);
    assert!(html(&r).contains("Could not provision account"));
}
