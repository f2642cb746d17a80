//! End-to-end flows: discovery, register/login (CSRF), authorize with PKCE + consent, token exchange,
//! userinfo, agent client_credentials + introspection kill switch.

use argus::agents::{agents_create, agents_set_status, AgentCreate, AgentStatusUpdate};
use argus::authorize::{authorize, authorize_consent, AuthorizeQuery, ConsentForm};
use argus::crypto::{hash_password, s256_challenge};
use argus::grants::{token, TokenRequest};
use argus::login::{register_form, register_submit, RegisterForm, RegisterQuery};
use argus::oidc::{
    discovery, introspect, jwks, register_client, userinfo, ClientRegistration, IntrospectRequest,
};
use argus::tokens::now_epoch;
use argus::config::Config;
use argus::crypto::SigningKey;
use argus::http::{AppState, Body, Reply, RequestHeaders};
use argus::store::Store;
use base64::engine::general_purpose::STANDARD;
use base64::Engine;
use rsa::pkcs8::{EncodePrivateKey, LineEnding};
use rsa::{BigUint, RsaPrivateKey};
use serde_json::Value;

/// A fixed 1024-bit key.
fn key() -> SigningKey {
    let p = BigUint::parse_bytes(b"13284012994602313665582702863433168659555201018807432869647404198251222984476210382353680421978178417971714920918718875143620477739773308505629948875784689", 10).unwrap();
    let q = BigUint::parse_bytes(b"11057026016947941969457018828438387724524283616086881373289692098949807082653458094846225809042866118755490992104190819828964348434841903354964895625288477", 10).unwrap();
    let private = RsaPrivateKey::from_p_q(p, q, BigUint::from(65537u32)).unwrap();
    let pem = private.to_pkcs8_pem(LineEnding::LF).unwrap();
    SigningKey::from_pem(pem.as_str()).unwrap()
}

fn config() -> Config {
    Config {
        listen: "127.0.0.1:0".to_string(),
        database: String::new(),
        external_url: "http://127.0.0.1:8443".to_string(),
        signing_key_pem_path: None,
        access_token_ttl: 600,
        session_ttl: 3600,
        github_client_id: None,
        github_client_secret: None,
        bootstrap_admin_email: Some("admin@test.dev".to_string()),
    }
}

fn test_state() -> AppState {
    AppState { config: config(), store: Store::new(), key: key() }
}

fn no_headers() -> RequestHeaders {
    RequestHeaders { cookie: None, authorization: None, forwarded_for: None }
}

fn with_cookie(cookie: &str) -> RequestHeaders {
    RequestHeaders { cookie: Some(cookie.to_string()), authorization: None, forwarded_for: None }
}

fn with_auth(auth: String) -> RequestHeaders {
    RequestHeaders { cookie: None, authorization: Some(auth), forwarded_for: None }
}

fn basic(id: &str, secret: &str) -> RequestHeaders {
    with_auth(format!("Basic {}", STANDARD.encode(format!("{id}:{secret}"))))
}

fn html(r: &Reply) -> String {
    match &r.body {
        Body::Html(s) => s.clone(),
        _ => panic!("no page: {r:?}"),
    }
}

fn value(r: &Reply) -> Value {
    match &r.body {
        Body::Json(v) => v.clone(),
        _ => panic!("no JSON: {r:?}"),
    }
}

fn extract_cookie(cookies: &[String], name: &str) -> String {
    for c in cookies {
        let kv = c.split(';').next().unwrap();
        if let Some((k, v)) = kv.split_once('=') {
            if k == name {
                return v.to_string();
            }
        }
    }
    String::new()
}

#[test]
fn discovery_and_jwks_work() {
    let state = test_state();
    let r = discovery(&state);
    assert_eq!(r.status, 200);
    let b = value(&r).to_string();
    assert!(b.contains("\"issuer\"") && b.contains("\"registration_endpoint\""));
    let r2 = jwks(&state);
    assert_eq!(r2.status, 200);
    let b2 = value(&r2).to_string();
    assert!(b2.contains("RS256") && b2.contains("\"n\""));
}

#[test]
fn full_oidc_flow_with_pkce_and_consent() {
    let mut state = test_state();
    // Register a public OIDC client directly.
    state
        .store
        .create_client(
            "svc_demo",
            None,
            "Demo",
            "http://127.0.0.1:9001/cb",
            "openid profile email offline_access",
            "static",
            0,
        )
        .unwrap();

    // ---- register a user ----
    let r = register_form(RegisterQuery { next: None }, &no_headers());
    assert_eq!(r.status, 200);
    let csrf = extract_cookie(&r.cookies, "argus_csrf");
    let form = RegisterForm {
        name: "Test".to_string(),
        email: "test@test.dev".to_string(),
        password: "supersecret123".to_string(),
        next: "/".to_string(),
        csrf: csrf.clone(),
    };
    let r = register_submit(&mut state, &with_cookie(&format!("argus_csrf={csrf}")), form);
    assert_eq!(r.status, 303, "register should redirect after success");
    let session = extract_cookie(&r.cookies, "argus_session");
    assert!(!session.is_empty(), "session cookie must be set");

    // ---- authorize (PKCE) → consent screen ----
    let verifier = "correct-horse-battery-staple-01";
    let challenge = s256_challenge(verifier);
    let query = || AuthorizeQuery {
        response_type: "code".to_string(),
        client_id: "svc_demo".to_string(),
        redirect_uri: "http://127.0.0.1:9001/cb".to_string(),
        scope: "openid offline_access".to_string(),
        state: Some("xyz".to_string()),
        nonce: Some("n-1".to_string()),
        code_challenge: Some(challenge.clone()),
        code_challenge_method: Some("S256".to_string()),
    };
    let signed_in = with_cookie(&format!("argus_session={session}"));
    let r = authorize(&mut state, &signed_in, query());
    assert_eq!(r.status, 200, "consent screen expected (session={session})");

    // ---- approve consent ----
    let r = authorize(&mut state, &signed_in, query());
    let csrf = extract_cookie(&r.cookies, "argus_csrf");
    let body = html(&r);
    assert!(body.contains("Consent"), "{body}");
    let params = body
        .split("name=\"params\" value=\"")
        .nth(1)
        .and_then(|s| s.split('"').next())
        .unwrap()
        .to_string();
    let both = with_cookie(&format!("argus_session={session}; argus_csrf={csrf}"));
    let form = || ConsentForm {
        decision: "approve".to_string(),
        params: params.clone(),
        csrf: csrf.clone(),
    };
    let r = authorize_consent(&mut state, &both, form());
    assert_eq!(r.status, 303, "consent approval should redirect: {r:?}");
    let r = authorize_consent(&mut state, &both, form());
    assert_eq!(r.status, 303);
    let loc = r.location.clone().unwrap();
    assert!(loc.contains("code="), "location={loc}");
    assert!(loc.starts_with("http://127.0.0.1:9001/cb?code="));
    assert!(loc.ends_with("&state=xyz"));
    let code = loc
        .split("code=")
        .nth(1)
        .unwrap()
        .split('&')
        .next()
        .unwrap()
        .to_string();

    // ---- token exchange (PKCE, public client) ----
    let request = TokenRequest {
        grant_type: "authorization_code".to_string(),
        code,
        redirect_uri: "http://127.0.0.1:9001/cb".to_string(),
        client_id: "svc_demo".to_string(),
        client_secret: String::new(),
        code_verifier: verifier.to_string(),
        refresh_token: String::new(),
        scope: String::new(),
    };
    let r = token(&mut state, &no_headers(), request);
    assert_eq!(r.status, 200, "{r:?}");
    let tok = value(&r);
    assert!(tok["access_token"].is_string());
    assert!(
        tok["id_token"].is_string(),
        "openid scope must yield id_token: {tok}"
    );
    assert!(
        tok["refresh_token"].is_string(),
        "offline_access must yield refresh_token"
    );

    // ---- userinfo ----
    let r = userinfo(
        &state,
        &with_auth(format!("Bearer {}", tok["access_token"].as_str().unwrap())),
    );
    assert_eq!(r.status, 200);
    let body = value(&r).to_string();
    assert!(body.contains("\"kind\":\"human\""), "{body}");
}

#[test]
fn dynamic_client_registration_creates_public_client() {
    let mut state = test_state();
    let r = register_client(
        &mut state,
        ClientRegistration {
            client_name: "CIMD Client".to_string(),
            redirect_uris: vec!["http://127.0.0.1:9001/cb".to_string()],
            scope: "openid profile email offline_access".to_string(),
        },
    );
    assert_eq!(r.status, 201, "{r:?}");
    let registered = value(&r);
    let client_id = registered["client_id"].as_str().unwrap();
    assert!(client_id.starts_with("dcr_"));
    assert_eq!(registered["token_endpoint_auth_method"], "none");

    let client = state.store.client(client_id).unwrap().unwrap();
    assert!(client.secret_hash.is_none());
    assert_eq!(client.registration_type, "dynamic");
    assert_eq!(client.redirect_uris, vec!["http://127.0.0.1:9001/cb".to_string()]);
    assert_eq!(client.scopes, "openid profile email offline_access");
}

#[test]
fn agent_lifecycle_credentials_and_kill_switch() {
    let mut state = test_state();
    let now = now_epoch();

    // Create an owner user directly + session.
    state
        .store
        .create_user(
            "usr_owner",
            "owner@test.dev",
            "Owner",
            Some(hash_password("pw1234567890").unwrap()),
            None,
            false,
            now,
        )
        .unwrap();
    state
        .store
        .create_session("sess-owner", "usr_owner", 3600, "", now)
        .unwrap();

    // Register an agent.
    let owner = with_cookie("argus_session=sess-owner");
    let r = agents_create(
        &mut state,
        &owner,
        AgentCreate {
            name: "ci-bot".to_string(),
            scopes: vec!["miser:route".to_string()],
            metadata: Value::Null,
        },
    );
    assert_eq!(r.status, 201, "{r:?}");
    let created = value(&r);
    let agent_id = created["agent_id"].as_str().unwrap().to_string();
    let secret = created["secret"].as_str().unwrap().to_string();

    // client_credentials grant works.
    let request = TokenRequest {
        grant_type: "client_credentials".to_string(),
        code: String::new(),
        redirect_uri: String::new(),
        client_id: String::new(),
        client_secret: String::new(),
        code_verifier: String::new(),
        refresh_token: String::new(),
        scope: String::new(),
    };
    let r = token(&mut state, &basic(&agent_id, &secret), request);
    assert_eq!(r.status, 200, "{r:?}");
    let access = value(&r)["access_token"].as_str().unwrap().to_string();

    // Introspection says active (using confidential caller).
    state
        .store
        .create_client(
            "svc_hub",
            Some(hash_password("hub-secret").unwrap()),
            "Hub",
            "http://x/cb",
            "",
            "static",
            0,
        )
        .unwrap();
    let hub = basic("svc_hub", "hub-secret");
    let r = introspect(&state, &hub, IntrospectRequest { token: access.clone() });
    assert_eq!(r.status, 200, "{r:?}");
    assert_eq!(value(&r)["active"], true);

    // Kill switch.
    let r = agents_set_status(
        &mut state,
        &owner,
        agent_id.clone(),
        AgentStatusUpdate { status: "revoked".to_string() },
    );
    assert_eq!(r.status, 200, "{r:?}");

    // Same token now introspects as inactive.
    let r = introspect(&state, &hub, IntrospectRequest { token: access });
    assert_eq!(r.status, 200);
    assert_eq!(
        value(&r)["active"],
        false,
        "revoked agent token must be inactive immediately"
    );
}
