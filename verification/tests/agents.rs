//! Registering, listing and revoking of agents.

use argus::agents::{agents_create, agents_create_at, agents_list, agents_list_at, agents_set_status_at, authenticate_agent, AgentCreate, AgentStatusUpdate};
use argus::config::Config;
use argus::crypto::SigningKey;
use argus::crypto::hash_password;
use argus::http::{AppState, Body, Reply, RequestHeaders};
use argus::store::Store;
use argus::tables::Change;
use base64::Engine;
use base64::engine::general_purpose::STANDARD;
use rsa::pkcs8::{EncodePrivateKey, LineEnding};
use rsa::{BigUint, RsaPrivateKey};
use serde_json::Value;

/// A fixed 1024-bit key.
fn key() -> SigningKey {
    let p = BigUint::parse_bytes(b"13284012994602313665582702863433168659555201018807432869647404198251222984476210382353680421978178417971714920918718875143620477739773308505629948875784689", 10).unwrap();
    let q = BigUint::parse_bytes(b"11057026016947941969457018828438387724524283616086881373289692098949807082653458094846225809042866118755490992104190819828964348434841903354964895625288477", 10).unwrap();
    let private = RsaPrivateKey::from_p_q(p, q, BigUint::from(65537u32)).unwrap();
    let pem = private.to_pkcs8_pem(LineEnding::LF).unwrap();
    SigningKey::from_pem(pem.as_str()).unwrap()
}

fn config() -> Config {
    Config {
        listen: "127.0.0.1:0".to_string(),
        database: String::new(),
        external_url: "http://127.0.0.1:8443".to_string(),
        signing_key_pem_path: None,
        access_token_ttl: 600,
        session_ttl: 3600,
        github_client_id: None,
        github_client_secret: None,
        bootstrap_admin_email: Some("admin@test.dev".to_string()),
    }
}

fn test_state() -> AppState {
    AppState { config: config(), store: Store::new(), key: key() }
}

fn no_headers() -> RequestHeaders {
    RequestHeaders { cookie: None, authorization: None, forwarded_for: None }
}

fn with_cookie(cookie: &str) -> RequestHeaders {
    RequestHeaders { cookie: Some(cookie.to_string()), authorization: None, forwarded_for: None }
}

fn with_auth(auth: String) -> RequestHeaders {
    RequestHeaders { cookie: None, authorization: Some(auth), forwarded_for: None }
}

fn basic(id: &str, secret: &str) -> RequestHeaders {
    with_auth(format!("Basic {}", STANDARD.encode(format!("{id}:{secret}"))))
}

fn html(r: &Reply) -> String {
    match &r.body {
        Body::Html(s) => s.clone(),
        _ => panic!("no page: {r:?}"),
    }
}

fn value(r: &Reply) -> Value {
    match &r.body {
        Body::Json(v) => v.clone(),
        _ => panic!("no JSON: {r:?}"),
    }
}

fn ready() -> AppState {
    let mut state = test_state();
    state.store.create_user("u", "u@test.dev", "U", None, None, false, 0).unwrap();
    state.store.create_user("v", "v@test.dev", "V", None, None, false, 0).unwrap();
    state.store.create_session("su", "u", 3600, "", 1000).unwrap();
    state.store.create_session("sv", "v", 3600, "", 1000).unwrap();
    state.store.take_journal();
    state
}

fn body(name: &str, scopes: &[&str]) -> AgentCreate {
    AgentCreate {
        name: name.to_string(),
        scopes: scopes.iter().map(|s| s.to_string()).collect(),
        metadata: Value::from(vec![1, 2]),
    }
}

fn create(state: &mut AppState, b: AgentCreate, id: &str, now: u64) -> Reply {
    agents_create_at(
        state,
        &with_cookie("argus_session=su"),
        b,
        "secret".to_string(),
        Some("hash".to_string()),
        id.to_string(),
        now,
    )
}

#[test]
fn an_agent_is_registered_with_allowed_scopes() {
    let mut state = ready();
    let r = create(&mut state, body("  bot ", &["miser:route", "root", "relay:call"]), "1", 1000);
    assert_eq!(r.status, 201);
    let v = value(&r);
    assert_eq!(v["agent_id"], "agt_1");
    assert_eq!(v["secret"], "agt_secret");
    assert_eq!(v["note"], "Store this secret now — it is not retrievable later.");
    let a = state.store.agent_by_id("agt_1").unwrap().unwrap();
    assert_eq!((a.name.as_str(), a.owner_user_id.as_str(), a.status.as_str()), ("bot", "u", "active"));
    assert_eq!(a.scopes, vec!["miser:route".to_string(), "relay:call".to_string()]);
    let j = state.store.take_journal();
    assert!(matches!(&j[0], Change::InsertAgent { agent } if agent.metadata == "[1,2]" && agent.secret_hash == "hash"));
    assert!(matches!(&j[1], Change::InsertAudit { entry }
        if entry.event == "agent_created" && entry.detail == r#"{"agent":"agt_1","name":"bot"}"#));
}

#[test]
fn a_new_agent_can_use_its_secret() {
    let mut state = ready();
    let now = argus::tokens::now_epoch();
    state.store.create_session("live", "u", 3600, "", now).unwrap();
    let r = agents_create(&mut state, &with_cookie("argus_session=live"), body("bot", &["aegis:egress"]));
    let v = value(&r);
    let (id, secret) = (v["agent_id"].as_str().unwrap(), v["secret"].as_str().unwrap());
    assert_eq!((id.len(), secret.len()), (4 + 16, 4 + 43));
    assert_eq!(authenticate_agent(&state, &basic(id, secret)).unwrap().id, id);
    assert!(authenticate_agent(&state, &basic(id, "agt_other")).is_none());
    assert!(authenticate_agent(&state, &no_headers()).is_none());
}

#[test]
fn bad_requests_for_agents_are_refused() {
    let mut state = ready();
    let r = agents_create(&mut state, &no_headers(), body("bot", &[]));
    assert_eq!(r.status, 401);
    assert_eq!(value(&r)["error"], "login required");
    for name in [" ", "", &"n".repeat(121)] {
        let r = create(&mut state, body(name, &[]), "1", 1000);
        assert_eq!(r.status, 400);
        assert!(html(&r).contains("Invalid agent name or quota exceeded"));
    }
    let r = agents_create_at(
        &mut state,
        &with_cookie("argus_session=su"),
        body("bot", &[]),
        "s".to_string(),
        None,
        "1".to_string(),
        1000,
    );
    assert!(html(&r).contains("Internal error"));
    assert_eq!(create(&mut state, body(&"n".repeat(120), &[]), "1", 1000).status, 201);
    let r = create(&mut state, body("bot", &[]), "1", 1000);
    assert!(html(&r).contains("Could not create agent"));
}

#[test]
fn no_one_has_more_than_a_hundred_agents() {
    let mut state = ready();
    for i in 0..100 {
        assert_eq!(create(&mut state, body("bot", &[]), &i.to_string(), 1000).status, 201);
    }
    let r = create(&mut state, body("bot", &[]), "x", 1000);
    assert!(html(&r).contains("Invalid agent name or quota exceeded"));
    assert_eq!(state.store.agents_for_owner("u").unwrap().len(), 100);
}

#[test]
fn the_list_shows_ones_own_agents() {
    let mut state = ready();
    create(&mut state, body("second", &["miser:route"]), "2", 1001);
    create(&mut state, body("first", &[]), "1", 1000);
    let r = agents_list_at(&state, &with_cookie("argus_session=su"), 1000);
    assert_eq!(r.status, 200);
    assert_eq!(
        value(&r).to_string(),
        r#"{"agents":[{"id":"agt_1","name":"first","scopes":[],"status":"active"},{"id":"agt_2","name":"second","scopes":["miser:route"],"status":"active"}]}"#
    );
    let r = agents_list_at(&state, &with_cookie("argus_session=sv"), 1000);
    assert_eq!(value(&r).to_string(), r#"{"agents":[]}"#);
    assert_eq!(agents_list(&state, &no_headers()).status, 401);
}

#[test]
fn the_owner_revokes_and_reactivates() {
    let mut state = ready();
    create(&mut state, body("bot", &[]), "1", 1000);
    let hash = hash_password("s").unwrap();
    state.store.create_agent("agt_2", "u", "b", &hash, &Vec::new(), &Value::Null, 1).unwrap();
    let set = |state: &mut AppState, session: &str, id: &str, status: &str| {
        agents_set_status_at(
            state,
            &with_cookie(session),
            id.to_string(),
            AgentStatusUpdate { status: status.to_string() },
            1000,
        )
    };
    let status = |state: &AppState| state.store.agent_by_id("agt_1").unwrap().unwrap().status;
    let r = set(&mut state, "argus_session=sv", "agt_1", "revoked");
    assert_eq!(r.status, 404);
    assert_eq!(value(&r)["error"], "not found");
    assert_eq!(status(&state), "active");
    let r = set(&mut state, "argus_session=su", "agt_1", "gone");
    assert!(html(&r).contains("status must be active|revoked"));
    assert_eq!(set(&mut state, "x=y", "agt_1", "revoked").status, 401);
    state.store.take_journal();
    let r = set(&mut state, "argus_session=su", "agt_1", "revoked");
    assert_eq!(value(&r).to_string(), r#"{"agent_id":"agt_1","status":"revoked"}"#);
    assert_eq!(status(&state), "revoked");
    assert!(authenticate_agent(&state, &basic("agt_2", "s")).is_some());
    set(&mut state, "argus_session=su", "agt_1", "active");
    assert_eq!(status(&state), "active");
    let events: Vec<String> = state
        .store
        .take_journal()
        .into_iter()
        .filter_map(|c| match c {
            Change::InsertAudit { entry } => Some(entry.event),
            _ => None,
        })
        .collect();
    assert_eq!(events, vec!["agent_revoked", "agent_reactivated"]);
}

#[test]
fn the_secret_is_told_once_and_kept_as_a_hash() {
    let mut state = ready();
    let now = argus::tokens::now_epoch();
    state.store.create_session("live", "u", 3600, "", now).unwrap();
    let h = with_cookie("argus_session=live");
    let v = value(&agents_create(&mut state, &h, body("bot", &["aegis:egress"])));
    let (id, secret) = (v["agent_id"].as_str().unwrap(), v["secret"].as_str().unwrap());
    let stored = state.store.agent_by_id(id).unwrap().unwrap();
    assert!(stored.secret_hash.starts_with("$argon2id$"));
    assert!(!format!("{stored:?}").contains(secret));
    assert!(!value(&agents_list(&state, &h)).to_string().contains(secret));
    assert!(!format!("{:?}", state.store.take_journal()).contains(secret));
}

#[test]
fn a_revoked_agent_stays_revoked() {
    let mut state = ready();
    create(&mut state, body("bot", &[]), "1", 1000);
    state.store.set_agent_status("agt_1", "u", "revoked").unwrap();
    create(&mut state, body("other", &[]), "2", 1000);
    state.store.touch_agent("agt_1", 2000).unwrap();
    state.store.set_agent_status("agt_1", "v", "active").unwrap();
    state.store.set_agent_status("agt_2", "u", "active").unwrap();
    state.store.promote_admin("u@test.dev").unwrap();
    assert_eq!(state.store.agent_by_id("agt_1").unwrap().unwrap().status, "revoked");
}

#[test]
fn any_key_may_stand_in_the_metadata() {
    let mut state = ready();
    let mut b = body("bot", &[]);
    let mut m = serde_json::Map::new();
    m.insert("$serde_json::private::RawValue".to_string(), Value::from("no JSON"));
    b.metadata = Value::Object(m);
    assert_eq!(create(&mut state, b, "1", 1000).status, 201);
    let j = state.store.take_journal();
    assert!(matches!(&j[0], Change::InsertAgent { agent }
        if agent.metadata == r#"{"$serde_json::private::RawValue":"no JSON"}"#));
}
