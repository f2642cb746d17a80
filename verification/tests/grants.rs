//! The token endpoint.

use argus::config::Config;
use argus::crypto::SigningKey;
use argus::crypto::{hash_password, s256_challenge};
use argus::grants::{finish_interactive_token, token_at, token_error, TokenRequest};
use argus::http::{AppState, Body, Reply, RequestHeaders};
use argus::store::Store;
use argus::store::{AuthCode, User};
use argus::tables::Change;
use argus::tokens::verify_at;
use base64::Engine;
use base64::engine::general_purpose::STANDARD;
use rsa::pkcs8::{EncodePrivateKey, LineEnding};
use rsa::{BigUint, RsaPrivateKey};
use serde_json::Value;

/// A fixed 1024-bit key.
fn key() -> SigningKey {
    let p = BigUint::parse_bytes(b"13284012994602313665582702863433168659555201018807432869647404198251222984476210382353680421978178417971714920918718875143620477739773308505629948875784689", 10).unwrap();
    let q = BigUint::parse_bytes(b"11057026016947941969457018828438387724524283616086881373289692098949807082653458094846225809042866118755490992104190819828964348434841903354964895625288477", 10).unwrap();
    let private = RsaPrivateKey::from_p_q(p, q, BigUint::from(65537u32)).unwrap();
    let pem = private.to_pkcs8_pem(LineEnding::LF).unwrap();
    SigningKey::from_pem(pem.as_str()).unwrap()
}

fn config() -> Config {
    Config {
        listen: "127.0.0.1:0".to_string(),
        database: String::new(),
        external_url: "http://127.0.0.1:8443".to_string(),
        signing_key_pem_path: None,
        access_token_ttl: 600,
        session_ttl: 3600,
        github_client_id: None,
        github_client_secret: None,
        bootstrap_admin_email: Some("admin@test.dev".to_string()),
    }
}

fn test_state() -> AppState {
    AppState { config: config(), store: Store::new(), key: key() }
}

fn no_headers() -> RequestHeaders {
    RequestHeaders { cookie: None, authorization: None, forwarded_for: None }
}

fn with_auth(auth: String) -> RequestHeaders {
    RequestHeaders { cookie: None, authorization: Some(auth), forwarded_for: None }
}

fn basic(id: &str, secret: &str) -> RequestHeaders {
    with_auth(format!("Basic {}", STANDARD.encode(format!("{id}:{secret}"))))
}

fn value(r: &Reply) -> Value {
    match &r.body {
        Body::Json(v) => v.clone(),
        _ => panic!("no JSON: {r:?}"),
    }
}

const CB: &str = "http://x/cb";
const ISS: &str = "http://127.0.0.1:8443";

fn request(grant_type: &str) -> TokenRequest {
    TokenRequest {
        grant_type: grant_type.to_string(),
        code: "k".to_string(),
        redirect_uri: CB.to_string(),
        client_id: "c".to_string(),
        client_secret: String::new(),
        code_verifier: "verifier".to_string(),
        refresh_token: String::new(),
        scope: String::new(),
    }
}

fn issue(state: &mut AppState, code: &str, scope: &str) {
    state
        .store
        .put_auth_code(&AuthCode {
            code: code.to_string(),
            client_id: "c".to_string(),
            redirect_uri: CB.to_string(),
            scope: scope.to_string(),
            user_id: "u".to_string(),
            code_challenge: Some(s256_challenge("verifier")),
            code_challenge_meth: Some("S256".to_string()),
            nonce: Some("n-1".to_string()),
            issued_at: 1000,
            expires_at: 1300,
        })
        .unwrap();
}

fn ready(secret: Option<&str>) -> AppState {
    let mut state = test_state();
    let hash = secret.map(|s| hash_password(s).unwrap());
    state.store.create_client("c", hash, "Demo", CB, "", "static", 0).unwrap();
    state.store.create_user("u", "ann@test.dev", "Ann", None, None, false, 0).unwrap();
    issue(&mut state, "k", "openid offline_access");
    state.store.take_journal();
    state
}

fn ask(state: &mut AppState, h: &RequestHeaders, f: TokenRequest) -> Reply {
    token_at(state, h, f, "fresh".to_string(), 1000)
}

fn refused(r: Reply, error: &str, description: &str) {
    assert_eq!(r.status, 400);
    assert_eq!(r.cache_control, Some("no-store".to_string()));
    let v = value(&r);
    assert_eq!((v["error"].as_str().unwrap(), v["error_description"].as_str().unwrap()), (error, description));
}

#[test]
fn a_code_gives_tokens_once() {
    let mut state = ready(None);
    let r = ask(&mut state, &no_headers(), request("authorization_code"));
    assert_eq!(r.status, 200);
    assert_eq!(r.cache_control, Some("no-store".to_string()));
    let v = value(&r);
    assert_eq!(v["token_type"], "Bearer");
    assert_eq!(v["expires_in"], 600);
    assert_eq!(v["exp"], 1600);
    assert_eq!(v["scope"], "openid offline_access");
    assert_eq!(v["refresh_token"], "fresh");
    let c = verify_at(&state.key, ISS, v["access_token"].as_str().unwrap(), 1600).unwrap();
    assert_eq!((c.sub.as_str(), c.aud.as_str()), ("u", "c"));
    let c = verify_at(&state.key, ISS, v["id_token"].as_str().unwrap(), 1600).unwrap();
    assert_eq!(c.nonce, Some("n-1".to_string()));
    refused(
        ask(&mut state, &no_headers(), request("authorization_code")),
        "invalid_grant",
        "code invalid, expired, or replayed",
    );
}

#[test]
fn tokens_depend_on_the_scope() {
    let mut state = ready(None);
    issue(&mut state, "k2", "profile");
    let mut f = request("authorization_code");
    f.code = "k2".to_string();
    let v = value(&ask(&mut state, &no_headers(), f));
    assert!(v.get("id_token").is_none());
    assert!(v.get("refresh_token").is_none());
    let mut f = request("authorization_code");
    f.refresh_token = "has one".to_string();
    let v = value(&ask(&mut state, &no_headers(), f));
    assert!(v["id_token"].is_string());
    assert!(v.get("refresh_token").is_none());
}

#[test]
fn a_code_is_bound_to_its_client_and_redirect_uri() {
    let wrong = "code was issued to a different client/redirect";
    let mut state = ready(None);
    let mut f = request("authorization_code");
    f.client_id = "d".to_string();
    refused(ask(&mut state, &no_headers(), f), "invalid_grant", wrong);
    let mut state = ready(None);
    let mut f = request("authorization_code");
    f.redirect_uri = "http://y/cb".to_string();
    refused(ask(&mut state, &no_headers(), f), "invalid_grant", wrong);
    let mut state = ready(None);
    refused(ask(&mut state, &basic("d", ""), request("authorization_code")), "invalid_grant", wrong);
}

#[test]
fn the_proof_key_is_enforced() {
    let mut state = ready(None);
    let mut f = request("authorization_code");
    f.code_verifier = "other".to_string();
    refused(ask(&mut state, &no_headers(), f), "invalid_grant", "PKCE verification failed");
}

#[test]
fn a_client_with_a_secret_must_prove_it() {
    let mut state = ready(Some("s3cret"));
    refused(ask(&mut state, &no_headers(), request("authorization_code")), "invalid_client", "bad client secret");
    let mut state = ready(Some("s3cret"));
    assert_eq!(ask(&mut state, &basic("c", "s3cret"), request("authorization_code")).status, 200);
    let mut state = ready(Some("s3cret"));
    let mut f = request("authorization_code");
    f.client_secret = "s3cret".to_string();
    assert_eq!(ask(&mut state, &no_headers(), f).status, 200);
}

#[test]
fn an_expired_code_is_refused() {
    let mut state = ready(None);
    let r = token_at(&mut state, &no_headers(), request("authorization_code"), "r".to_string(), 1300);
    refused(r, "invalid_grant", "code invalid, expired, or replayed");
}

#[test]
fn a_code_of_someone_gone_or_disabled_is_refused() {
    let mut state = test_state();
    issue(&mut state, "k", "openid");
    refused(ask(&mut state, &no_headers(), request("authorization_code")), "invalid_grant", "user gone");
    let disabled = User {
        id: "u".to_string(),
        email: "e".to_string(),
        name: "n".to_string(),
        password_hash: None,
        github_id: None,
        is_admin: false,
        disabled: true,
    };
    let mut state = test_state();
    state.store = Store::load(
        vec![disabled],
        Vec::new(),
        Vec::new(),
        Vec::new(),
        Vec::new(),
        Vec::new(),
        Vec::new(),
        Vec::new(),
    );
    issue(&mut state, "k", "openid");
    refused(ask(&mut state, &no_headers(), request("authorization_code")), "invalid_grant", "user disabled");
}

#[test]
fn a_refresh_token_is_replaced_once() {
    let mut state = ready(None);
    state.store.put_refresh("r1", "u", "c", "openid", 60, 1000).unwrap();
    let mut f = request("refresh_token");
    f.refresh_token = "r1".to_string();
    let r = ask(&mut state, &no_headers(), f);
    assert_eq!(r.status, 200);
    let v = value(&r);
    assert_eq!(v["refresh_token"], "fresh");
    assert_eq!(v["expires_in"], 600);
    assert_eq!(v["scope"], "openid");
    assert_eq!(verify_at(&state.key, ISS, v["access_token"].as_str().unwrap(), 1600).unwrap().sub, "u");
    let mut f = request("refresh_token");
    f.refresh_token = "r1".to_string();
    refused(ask(&mut state, &no_headers(), f), "invalid_grant", "refresh token invalid or reused");
    state.store.put_refresh("r2", "gone", "c", "openid", 60, 1000).unwrap();
    let mut f = request("refresh_token");
    f.refresh_token = "r2".to_string();
    refused(ask(&mut state, &no_headers(), f), "invalid_grant", "user gone");
}

#[test]
fn a_token_that_cannot_be_signed_is_a_server_error() {
    let mut state = ready(None);
    state.config.access_token_ttl = u64::MAX;
    refused(ask(&mut state, &no_headers(), request("authorization_code")), "server_error", "signing failed");
    state.store.put_refresh("r1", "u", "c", "openid", 60, 1000).unwrap();
    let mut f = request("refresh_token");
    f.refresh_token = "r1".to_string();
    refused(ask(&mut state, &no_headers(), f), "server_error", "signing failed");
}

#[test]
fn other_grants_are_unsupported() {
    let mut state = ready(None);
    refused(
        ask(&mut state, &no_headers(), request("password")),
        "unsupported_grant_type",
        "supported: authorization_code, refresh_token, client_credentials",
    );
    refused(token_error("a", "b"), "a", "b");
}

fn agent(state: &mut AppState, scopes: &[&str]) {
    let scopes: Vec<String> = scopes.iter().map(|s| s.to_string()).collect();
    let hash = hash_password("agt_s").unwrap();
    state.store.create_agent("agt_1", "u", "bot", &hash, &scopes, &Value::Null, 1).unwrap();
}

#[test]
fn an_agent_gets_a_token_bounded_by_its_grant() {
    let mut state = ready(None);
    agent(&mut state, &["miser:route", "relay:call"]);
    state.store.take_journal();
    state.config.access_token_ttl = 3600;
    let r = ask(&mut state, &basic("agt_1", "agt_s"), request("client_credentials"));
    assert_eq!(r.status, 200);
    let v = value(&r);
    assert_eq!(v["expires_in"], 900);
    assert_eq!(v["scope"], "miser:route relay:call");
    assert_eq!(v["agent_id"], "agt_1");
    let c = verify_at(&state.key, ISS, v["access_token"].as_str().unwrap(), 1900).unwrap();
    assert_eq!((c.sub.as_str(), c.aud.as_str(), c.exp), ("u", "agt_1", 1900));
    assert_eq!(c.email, Some("ann@test.dev".to_string()));
    let j = state.store.take_journal();
    assert!(matches!(&j[0], Change::TouchAgent { id, at: 1000 } if id == "agt_1"));
    assert!(matches!(&j[1], Change::InsertAudit { entry } if entry.event == "agent_token"));
    let mut f = request("client_credentials");
    f.scope = "relay:call".to_string();
    assert_eq!(value(&ask(&mut state, &basic("agt_1", "agt_s"), f))["scope"], "relay:call");
    let mut f = request("client_credentials");
    f.scope = "relay:call hive:delegate".to_string();
    refused(ask(&mut state, &basic("agt_1", "agt_s"), f), "invalid_scope", "scope exceeds agent grant");
    state.config.access_token_ttl = 60;
    let v = value(&ask(&mut state, &basic("agt_1", "agt_s"), request("client_credentials")));
    let c = verify_at(&state.key, ISS, v["access_token"].as_str().unwrap(), 1000).unwrap();
    assert_eq!(c.exp, 1060);
}

#[test]
fn bad_agent_credentials_are_refused() {
    let mut state = ready(None);
    agent(&mut state, &["miser:route"]);
    refused(
        ask(&mut state, &basic("c", "x"), request("client_credentials")),
        "invalid_client",
        "agent credentials required",
    );
    refused(
        ask(&mut state, &basic("agt_1", "wrong"), request("client_credentials")),
        "invalid_client",
        "invalid agent credentials",
    );
    let mut f = request("client_credentials");
    f.client_id = "agt_1".to_string();
    f.client_secret = "agt_s".to_string();
    refused(ask(&mut state, &no_headers(), f), "invalid_client", "invalid agent credentials");
    state.store.set_agent_status("agt_1", "u", "revoked").unwrap();
    refused(
        ask(&mut state, &basic("agt_1", "agt_s"), request("client_credentials")),
        "invalid_client",
        "invalid agent credentials",
    );
}

#[test]
fn an_agent_without_owner_acts_for_a_stand_in() {
    let mut state = test_state();
    agent(&mut state, &["miser:route"]);
    let v = value(&ask(&mut state, &basic("agt_1", "agt_s"), request("client_credentials")));
    let c = verify_at(&state.key, ISS, v["access_token"].as_str().unwrap(), 1000).unwrap();
    assert_eq!((c.sub.as_str(), c.email), ("owner-of-agt_1", Some(String::new())));
}

#[test]
fn an_agent_without_scopes_gets_no_token() {
    let mut state = ready(None);
    agent(&mut state, &[]);
    refused(
        ask(&mut state, &basic("agt_1", "agt_s"), request("client_credentials")),
        "invalid_scope",
        "scope exceeds agent grant",
    );
}

#[test]
fn a_refresh_token_is_stored_for_thirty_days() {
    let mut state = ready(None);
    let user = state.store.user_by_id("u").unwrap().unwrap();
    let r = finish_interactive_token(
        &mut state,
        &user,
        "c",
        "offline_access",
        &None,
        true,
        "rt".to_string(),
        1000,
    );
    assert_eq!(value(&r)["refresh_token"], "rt");
    assert!(state.store.rotate_refresh("rt", "x", 1000 + 30 * 24 * 3600).unwrap().is_none());
    assert!(state.store.rotate_refresh("rt", "x", 1000 + 30 * 24 * 3600 - 1).unwrap().is_some());
}
