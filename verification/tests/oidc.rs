//! Discovery, keys, profiles, introspection, client registration.

use argus::config::Config;
use argus::crypto::SigningKey;
use argus::crypto::hash_password;
use argus::http::{AppState, Body, Reply, RequestHeaders};
use argus::oidc::{bearer_claims, discovery, health, introspect, introspect_at, jwks, register_client_at, userinfo, userinfo_at, ClientRegistration, IntrospectRequest};
use argus::store::Store;
use argus::tokens::mint_access_token_at;
use base64::Engine;
use base64::engine::general_purpose::STANDARD;
use rsa::pkcs8::{EncodePrivateKey, LineEnding};
use rsa::{BigUint, RsaPrivateKey};
use serde_json::Value;

/// A fixed 1024-bit key.
fn key() -> SigningKey {
    let p = BigUint::parse_bytes(b"13284012994602313665582702863433168659555201018807432869647404198251222984476210382353680421978178417971714920918718875143620477739773308505629948875784689", 10).unwrap();
    let q = BigUint::parse_bytes(b"11057026016947941969457018828438387724524283616086881373289692098949807082653458094846225809042866118755490992104190819828964348434841903354964895625288477", 10).unwrap();
    let private = RsaPrivateKey::from_p_q(p, q, BigUint::from(65537u32)).unwrap();
    let pem = private.to_pkcs8_pem(LineEnding::LF).unwrap();
    SigningKey::from_pem(pem.as_str()).unwrap()
}

fn config() -> Config {
    Config {
        listen: "127.0.0.1:0".to_string(),
        database: String::new(),
        external_url: "http://127.0.0.1:8443".to_string(),
        signing_key_pem_path: None,
        access_token_ttl: 600,
        session_ttl: 3600,
        github_client_id: None,
        github_client_secret: None,
        bootstrap_admin_email: Some("admin@test.dev".to_string()),
    }
}

fn test_state() -> AppState {
    AppState { config: config(), store: Store::new(), key: key() }
}

fn no_headers() -> RequestHeaders {
    RequestHeaders { cookie: None, authorization: None, forwarded_for: None }
}

fn with_auth(auth: String) -> RequestHeaders {
    RequestHeaders { cookie: None, authorization: Some(auth), forwarded_for: None }
}

fn basic(id: &str, secret: &str) -> RequestHeaders {
    with_auth(format!("Basic {}", STANDARD.encode(format!("{id}:{secret}"))))
}

fn value(r: &Reply) -> Value {
    match &r.body {
        Body::Json(v) => v.clone(),
        _ => panic!("no JSON: {r:?}"),
    }
}

const ISS: &str = "http://127.0.0.1:8443";

fn ready() -> AppState {
    let mut state = test_state();
    state.store.create_user("u", "ann@test.dev", "Ann", None, None, false, 0).unwrap();
    let hash = hash_password("hub").unwrap();
    state.store.create_client("svc_hub", Some(hash.clone()), "Hub", "", "", "static", 0).unwrap();
    state.store.create_client("svc_open", None, "Open", "", "", "static", 0).unwrap();
    state.store.create_client("other", Some(hash), "Other", "", "", "static", 0).unwrap();
    state.store.create_agent("agt_1", "u", "bot", "h", &Vec::new(), &Value::Null, 0).unwrap();
    state
}

fn access(state: &AppState, user_id: &str, aud: &str) -> String {
    let mut user = state.store.user_by_id("u").unwrap().unwrap();
    user.id = user_id.to_string();
    mint_access_token_at(&state.key, ISS, &user, aud, "openid", 600, 1000).unwrap().0
}

fn look(state: &AppState, h: &RequestHeaders, token: &str, now: u64) -> Reply {
    introspect_at(state, h, IntrospectRequest { token: token.to_string() }, now)
}

#[test]
fn the_discovery_document_names_the_endpoints() {
    let mut state = test_state();
    state.config.external_url = "https://id.example/".to_string();
    let r = discovery(&state);
    assert_eq!(r.cache_control, Some("public, max-age=300".to_string()));
    let v = value(&r);
    assert_eq!(v["issuer"], "https://id.example");
    for (key, path) in [
        ("authorization_endpoint", "/authorize"),
        ("token_endpoint", "/token"),
        ("userinfo_endpoint", "/userinfo"),
        ("jwks_uri", "/jwks.json"),
        ("introspection_endpoint", "/introspect"),
        ("registration_endpoint", "/register-client"),
    ] {
        assert_eq!(v[key], format!("https://id.example{path}"));
    }
    assert_eq!(v["response_types_supported"].to_string(), r#"["code"]"#);
    assert_eq!(v["grant_types_supported"].to_string(), r#"["authorization_code","refresh_token"]"#);
    assert_eq!(v["subject_types_supported"].to_string(), r#"["public"]"#);
    assert_eq!(v["id_token_signing_alg_values_supported"].to_string(), r#"["RS256"]"#);
    assert_eq!(v["code_challenge_methods_supported"].to_string(), r#"["S256"]"#);
    assert_eq!(v["scopes_supported"].to_string(), r#"["openid","profile","email","offline_access"]"#);
    assert_eq!(
        v["token_endpoint_auth_methods_supported"].to_string(),
        r#"["client_secret_post","client_secret_basic","none"]"#
    );
    assert_eq!(
        v["claims_supported"].to_string(),
        r#"["sub","email","name","iss","aud","exp","iat"]"#
    );
    assert_eq!(v.as_object().unwrap().len(), 15);
}

#[test]
fn the_published_keys_hold_the_signing_key() {
    let state = test_state();
    let r = jwks(&state);
    assert_eq!(r.cache_control, Some("public, max-age=300".to_string()));
    let v = value(&r);
    assert_eq!(v["keys"].as_array().unwrap().len(), 1);
    assert_eq!(v["keys"][0]["kid"], state.key.kid());
}

#[test]
fn health_is_told() {
    let r = health();
    assert_eq!(r.status, 200);
    assert_eq!(value(&r).to_string(), r#"{"service":"argus","status":"ok"}"#);
}

#[test]
fn a_token_opens_a_profile() {
    let state = ready();
    let h = |t: String| with_auth(format!("Bearer {t}"));
    let r = userinfo_at(&state, &h(access(&state, "u", "svc_demo")), 1600);
    assert_eq!(r.status, 200);
    assert_eq!(
        value(&r).to_string(),
        r#"{"email":"ann@test.dev","kind":"human","name":"Ann","sub":"u"}"#
    );
    let r = userinfo_at(&state, &h(access(&state, "gone", "svc_demo")), 1600);
    assert_eq!(value(&r).to_string(), r#"{"sub":"gone"}"#);
    let r = userinfo_at(&state, &h(access(&state, "u", "agt_1")), 1600);
    assert_eq!(
        value(&r).to_string(),
        r#"{"acting_for":"ann@test.dev","agent_id":"agt_1","kind":"agent","name":"bot","sub":"u"}"#
    );
    let r = userinfo_at(&state, &h(access(&state, "u", "agt_9")), 1600);
    assert_eq!(value(&r)["name"], "");
    let r = userinfo_at(&state, &h(access(&state, "u", "svc_demo")), 1601);
    assert_eq!(r.status, 401);
    assert_eq!(value(&r)["error"], "invalid_token");
    assert_eq!(userinfo(&state, &no_headers()).status, 401);
    assert!(bearer_claims(&state, &h("x".to_string()), 0).is_err());
}

#[test]
fn only_services_look_into_tokens() {
    let state = ready();
    let t = access(&state, "u", "svc_demo");
    for h in [
        no_headers(),
        basic("svc_hub", "wrong"),
        basic("svc_open", ""),
        basic("other", "hub"),
        basic("svc_gone", "hub"),
        with_auth("Bearer x".to_string()),
    ] {
        let r = look(&state, &h, &t, 1000);
        assert_eq!(r.status, 401);
        assert_eq!(value(&r)["error"], "invalid_client");
    }
}

#[test]
fn tokens_are_active_while_their_holder_stands() {
    let mut state = ready();
    let hub = basic("svc_hub", "hub");
    let t = access(&state, "u", "svc_demo");
    let r = look(&state, &hub, &t, 1600);
    assert_eq!(
        value(&r).to_string(),
        r#"{"active":true,"aud":"svc_demo","exp":1600,"iss":"http://127.0.0.1:8443","scope":"","sub":"u"}"#
    );
    let inactive = r#"{"active":false}"#;
    assert_eq!(value(&look(&state, &hub, &t, 1601)).to_string(), inactive);
    assert_eq!(value(&look(&state, &hub, "junk", 1000)).to_string(), inactive);
    assert_eq!(value(&look(&state, &hub, &access(&state, "gone", "c"), 1000)).to_string(), inactive);
    assert_eq!(value(&look(&state, &hub, &access(&state, "u", "agt_9"), 1000)).to_string(), inactive);
    let agent = access(&state, "u", "agt_1");
    assert_eq!(value(&look(&state, &hub, &agent, 1000))["active"], true);
    state.store.set_agent_status("agt_1", "u", "revoked").unwrap();
    assert_eq!(value(&look(&state, &hub, &agent, 1000)).to_string(), inactive);
    state.store.set_agent_status("agt_1", "u", "active").unwrap();
    assert_eq!(value(&look(&state, &hub, &agent, 1000))["active"], true);
    let r = introspect(&state, &hub, IntrospectRequest { token: agent });
    assert_eq!(value(&r).to_string(), inactive);
}

#[test]
fn a_client_registers_itself() {
    let mut state = test_state();
    let body = |uris: &[&str]| ClientRegistration {
        client_name: "App".to_string(),
        redirect_uris: uris.iter().map(|s| s.to_string()).collect(),
        scope: "openid root email".to_string(),
    };
    let r = register_client_at(&mut state, body(&["http://a/cb", "http://b/cb"]), "t1".to_string(), 5);
    assert_eq!(r.status, 201);
    assert_eq!(
        value(&r).to_string(),
        r#"{"client_id":"dcr_t1","client_name":"App","redirect_uris":["http://a/cb","http://b/cb"],"scope":"openid email","token_endpoint_auth_method":"none"}"#
    );
    let c = state.store.client("dcr_t1").unwrap().unwrap();
    assert_eq!(c.redirect_uris, vec!["http://a/cb".to_string(), "http://b/cb".to_string()]);
    assert_eq!(c.scopes, "openid email");
    for uris in [&[][..], &[""][..], &[" http://a/cb"][..], &["http://a/cb\nhttp://evil/cb"][..]] {
        let r = register_client_at(&mut state, body(uris), "t2".to_string(), 5);
        assert_eq!(r.status, 400);
        assert_eq!(value(&r)["error"], "invalid_redirect_uri");
    }
    let mut named = body(&["http://a/cb"]);
    named.client_name = "<b>App</b>".to_string();
    let r = register_client_at(&mut state, named, "t3".to_string(), 5);
    assert_eq!(r.status, 400);
    assert_eq!(value(&r)["error"], "invalid_client_metadata");
    let r = register_client_at(&mut state, body(&["http://a/cb"]), "t1".to_string(), 5);
    assert_eq!(r.status, 400);
    assert_eq!(value(&r)["error"], "server_error");
}
