//! Asking for access, and consent.

use argus::authorize::{authorize_at, authorize_consent_at, authorize_error_redirect, build_authorize_url, serde_urlencoded_decode, AuthorizeQuery, ConsentForm};
use argus::config::Config;
use argus::crypto::SigningKey;
use argus::http::{AppState, Body, Reply, RequestHeaders};
use argus::store::Store;
use argus::tables::Change;
use rsa::pkcs8::{EncodePrivateKey, LineEnding};
use rsa::{BigUint, RsaPrivateKey};

/// A fixed 1024-bit key.
fn key() -> SigningKey {
    let p = BigUint::parse_bytes(b"13284012994602313665582702863433168659555201018807432869647404198251222984476210382353680421978178417971714920918718875143620477739773308505629948875784689", 10).unwrap();
    let q = BigUint::parse_bytes(b"11057026016947941969457018828438387724524283616086881373289692098949807082653458094846225809042866118755490992104190819828964348434841903354964895625288477", 10).unwrap();
    let private = RsaPrivateKey::from_p_q(p, q, BigUint::from(65537u32)).unwrap();
    let pem = private.to_pkcs8_pem(LineEnding::LF).unwrap();
    SigningKey::from_pem(pem.as_str()).unwrap()
}

fn config() -> Config {
    Config {
        listen: "127.0.0.1:0".to_string(),
        database: String::new(),
        external_url: "http://127.0.0.1:8443".to_string(),
        signing_key_pem_path: None,
        access_token_ttl: 600,
        session_ttl: 3600,
        github_client_id: None,
        github_client_secret: None,
        bootstrap_admin_email: Some("admin@test.dev".to_string()),
    }
}

fn test_state() -> AppState {
    AppState { config: config(), store: Store::new(), key: key() }
}

fn no_headers() -> RequestHeaders {
    RequestHeaders { cookie: None, authorization: None, forwarded_for: None }
}

fn with_cookie(cookie: &str) -> RequestHeaders {
    RequestHeaders { cookie: Some(cookie.to_string()), authorization: None, forwarded_for: None }
}

fn html(r: &Reply) -> String {
    match &r.body {
        Body::Html(s) => s.clone(),
        _ => panic!("no page: {r:?}"),
    }
}

fn extract_cookie(cookies: &[String], name: &str) -> String {
    for c in cookies {
        let kv = c.split(';').next().unwrap();
        if let Some((k, v)) = kv.split_once('=') {
            if k == name {
                return v.to_string();
            }
        }
    }
    String::new()
}

const CB: &str = "http://x/cb";

fn query() -> AuthorizeQuery {
    AuthorizeQuery {
        response_type: "code".to_string(),
        client_id: "c".to_string(),
        redirect_uri: CB.to_string(),
        scope: "openid email".to_string(),
        state: Some("s t&".to_string()),
        nonce: None,
        code_challenge: None,
        code_challenge_method: None,
    }
}

fn ready() -> AppState {
    let mut state = test_state();
    state.store.create_client("c", None, "Demo", "http://x/cb\nhttp://y/cb?z=1", "own:scope", "static", 0).unwrap();
    state.store.create_user("u", "a<b@test.dev", "Ann", None, None, false, 0).unwrap();
    state.store.create_session("sid", "u", 3600, "", 1000).unwrap();
    state.store.take_journal();
    state
}

fn ask(state: &mut AppState, h: &RequestHeaders, q: AuthorizeQuery) -> Reply {
    authorize_at(state, h, q, "fresh".to_string(), "code1".to_string(), 1000)
}

fn signed_in() -> RequestHeaders {
    with_cookie("argus_session=sid; argus_csrf=tok")
}

fn answer(decision: &str, q: &AuthorizeQuery) -> ConsentForm {
    let url = build_authorize_url(q);
    ConsentForm {
        decision: decision.to_string(),
        params: url.replace('%', "%25"),
        csrf: "tok".to_string(),
    }
}

#[test]
fn the_query_is_written_as_a_url_and_read_back() {
    let mut q = query();
    q.nonce = Some("n=1".to_string());
    q.code_challenge = Some("ch".to_string());
    q.code_challenge_method = Some("S256".to_string());
    let url = build_authorize_url(&q);
    assert_eq!(
        url,
        "/authorize?response_type=code&client_id=c&redirect_uri=http%3A%2F%2Fx%2Fcb&scope=openid%20email&state=s%20t%26&nonce=n%3D1&code_challenge=ch&code_challenge_method=S256"
    );
    let back = serde_urlencoded_decode(url.split('?').nth(1).unwrap()).unwrap();
    assert_eq!(back.response_type, q.response_type);
    assert_eq!(back.client_id, q.client_id);
    assert_eq!(back.redirect_uri, q.redirect_uri);
    assert_eq!(back.scope, q.scope);
    assert_eq!(back.state, q.state);
    assert_eq!(back.nonce, q.nonce);
    assert_eq!(back.code_challenge, q.code_challenge);
    assert_eq!(back.code_challenge_method, q.code_challenge_method);
}

#[test]
fn a_query_text_is_read_leniently() {
    let q = serde_urlencoded_decode("client_id=a&client_id=b&junk&x=%41&state=").unwrap();
    assert_eq!(q.client_id, "b");
    assert_eq!(q.state, Some(String::new()));
    assert_eq!(q.nonce, None);
    assert_eq!(q.scope, "");
    assert!(serde_urlencoded_decode("client_id=%ff").is_none());
    assert_eq!(serde_urlencoded_decode("scope=a%2").unwrap().scope, "a%2");
    assert_eq!(serde_urlencoded_decode("").unwrap().client_id, "");
}

#[test]
fn bad_queries_are_refused() {
    let mut state = ready();
    let h = signed_in();
    let page = |state: &mut AppState, q: AuthorizeQuery| html(&ask(state, &h, q));
    let go = |state: &mut AppState, q: AuthorizeQuery| ask(state, &h, q).location.unwrap();
    let mut q = query();
    q.client_id = "d".to_string();
    assert!(page(&mut state, q).contains("Unknown client_id"));
    let mut q = query();
    q.redirect_uri = "http://x/cb2".to_string();
    assert!(page(&mut state, q).contains("redirect_uri is not registered for this client"));
    let mut q = query();
    q.response_type = "token".to_string();
    assert_eq!(
        go(&mut state, q),
        "http://x/cb?error=unsupported_response_type&error_description=only%20code%20is%20supported&state=s%20t%26"
    );
    let mut q = query();
    q.scope = "openid other".to_string();
    q.state = None;
    assert_eq!(go(&mut state, q), "http://x/cb?error=invalid_scope&error_description=scope%20not%20allowed");
    let mut q = query();
    q.code_challenge = Some("ch".to_string());
    assert!(go(&mut state, q).starts_with("http://x/cb?error=invalid_request&error_description=PKCE%20S256"));
    let mut q = query();
    q.code_challenge_method = Some("S256".to_string());
    assert!(go(&mut state, q).starts_with("http://x/cb?error=invalid_request"));
    let mut q = query();
    q.code_challenge = Some("ch".to_string());
    q.code_challenge_method = Some("plain".to_string());
    assert!(go(&mut state, q).starts_with("http://x/cb?error=invalid_request"));
    let mut q = query();
    q.scope = "own:scope".to_string();
    assert_eq!(ask(&mut state, &h, q).status, 200);
    assert!(state.store.take_journal().is_empty());
}

#[test]
fn a_stranger_is_sent_to_sign_in() {
    let mut state = ready();
    let r = ask(&mut state, &no_headers(), query());
    assert_eq!(r.status, 303);
    assert_eq!(
        r.location.unwrap(),
        "/login?next=%2Fauthorize%3Fresponse_type%3Dcode%26client_id%3Dc%26redirect_uri%3Dhttp%253A%252F%252Fx%252Fcb%26scope%3Dopenid%2520email%26state%3Ds%2520t%2526"
    );
}

#[test]
fn consent_is_asked_for() {
    let mut state = ready();
    let r = ask(&mut state, &with_cookie("argus_session=sid"), query());
    assert_eq!(r.status, 200);
    assert_eq!(extract_cookie(&r.cookies, "argus_csrf"), "fresh");
    let b = html(&r);
    assert!(b.contains("<b>Demo</b> requests access:"));
    assert!(b.contains("openid email"));
    assert!(b.contains("Signed in as a&lt;b@test.dev</p>"));
    assert!(b.contains("name=\"csrf\" value=\"fresh\""));
}

#[test]
fn approval_issues_a_code_and_is_remembered() {
    let mut state = ready();
    let f = answer("approve", &query());
    let r = authorize_consent_at(&mut state, &signed_in(), f, "code0".to_string(), 1000);
    assert_eq!(r.location.unwrap(), "http://x/cb?code=code0&state=s%20t%26");
    let c = state.store.take_auth_code("code0", 1299).unwrap().unwrap();
    assert_eq!((c.client_id.as_str(), c.user_id.as_str(), c.scope.as_str()), ("c", "u", "openid email"));
    assert_eq!((c.issued_at, c.expires_at), (1000, 1300));
    let r = ask(&mut state, &signed_in(), query());
    assert_eq!(r.location.unwrap(), "http://x/cb?code=code1&state=s%20t%26");
    let events: Vec<String> = state
        .store
        .take_journal()
        .iter()
        .filter_map(|c| match c {
            Change::InsertAudit { entry } => Some(format!("{} {}", entry.event, entry.detail)),
            _ => None,
        })
        .collect();
    assert_eq!(
        events,
        vec![
            "consent_approved {\"client\":\"c\",\"scope\":\"openid email\"}",
            "auth_code_issued {\"client\":\"c\"}",
            "auth_code_issued {\"client\":\"c\"}",
        ]
    );
}

#[test]
fn an_existing_query_of_the_redirect_uri_is_kept() {
    let mut state = ready();
    let mut q = query();
    q.redirect_uri = "http://y/cb?z=1".to_string();
    q.state = None;
    let f = answer("approve", &q);
    let r = authorize_consent_at(&mut state, &signed_in(), f, "k".to_string(), 1000);
    assert_eq!(r.location.unwrap(), "http://y/cb?z=1&code=k");
}

#[test]
fn denial_is_told_and_remembered() {
    let mut state = ready();
    let f = answer("deny", &query());
    let denied = "http://x/cb?error=access_denied&error_description=user%20denied&state=s%20t%26";
    let r = authorize_consent_at(&mut state, &signed_in(), f, "k".to_string(), 1000);
    assert_eq!(r.location.unwrap(), denied);
    assert_eq!(ask(&mut state, &signed_in(), query()).location.unwrap(), denied);
    assert!(state.store.take_auth_code("k", 1000).unwrap().is_none());
}

#[test]
fn bad_consent_forms_are_refused() {
    let mut state = ready();
    let mut send = |h: &RequestHeaders, f: ConsentForm| {
        authorize_consent_at(&mut state, h, f, "k".to_string(), 1000)
    };
    let mut f = answer("approve", &query());
    f.csrf = "other".to_string();
    assert!(html(&send(&signed_in(), f)).contains("Invalid CSRF token"));
    let r = send(&with_cookie("argus_csrf=tok"), answer("approve", &query()));
    assert_eq!(r.location, Some("/login".to_string()));
    let mut f = answer("approve", &query());
    f.params = "/authorize?client_id=%25ff".to_string();
    assert!(html(&send(&signed_in(), f)).contains("Malformed consent payload"));
    let mut f = answer("approve", &query());
    f.params = "%ff".to_string();
    assert!(html(&send(&signed_in(), f)).contains("Unknown client_id"));
    let mut q = query();
    q.redirect_uri = "http://evil/cb".to_string();
    assert!(html(&send(&signed_in(), answer("approve", &q))).contains("redirect_uri mismatch"));
    assert!(state.store.take_journal().is_empty());
}

#[test]
fn a_query_without_scope_is_one_for_openid() {
    let mut state = ready();
    state.store.create_client("e", None, "Empty", CB, "", "static", 0).unwrap();
    let mut q = query();
    q.client_id = "e".to_string();
    q.scope = String::new();
    let f = answer("approve", &q);
    authorize_consent_at(&mut state, &signed_in(), f, "k".to_string(), 1000);
    assert_eq!(state.store.take_auth_code("k", 1000).unwrap().unwrap().scope, "openid");
    assert_eq!(state.store.consent("u", "e", "openid").unwrap(), Some("approved".to_string()));
    let mut again = query();
    again.client_id = "e".to_string();
    again.scope = String::new();
    assert_eq!(ask(&mut state, &signed_in(), again).status, 200);
}

#[test]
fn a_code_that_cannot_be_stored_is_not_issued() {
    let mut state = ready();
    state.store.save_consent("u", "c", "openid email", "approved", 1).unwrap();
    let first = ask(&mut state, &signed_in(), query());
    assert_eq!(first.status, 303);
    let second = ask(&mut state, &signed_in(), query());
    assert_eq!(second.status, 400);
    assert!(html(&second).contains("Could not store authorization code"));
}

#[test]
fn errors_are_sent_to_the_client() {
    let r = authorize_error_redirect(CB, "e", "a b", &None);
    assert_eq!(r.status, 303);
    assert_eq!(r.location.unwrap(), "http://x/cb?error=e&error_description=a%20b");
}
