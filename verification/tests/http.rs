//! Replies, settings, and pages.

use argus::config::Config;
use argus::config::{default_access_ttl, default_listen, default_session_ttl};
use argus::http::{Body, Reply};
use argus::pages::{err_page, html_escape, page, safe_next};
use serde_json::Value;

fn config() -> Config {
    Config {
        listen: "127.0.0.1:0".to_string(),
        database: String::new(),
        external_url: "http://127.0.0.1:8443".to_string(),
        signing_key_pem_path: None,
        access_token_ttl: 600,
        session_ttl: 3600,
        github_client_id: None,
        github_client_secret: None,
        bootstrap_admin_email: Some("admin@test.dev".to_string()),
    }
}

fn has(h: &[(String, String)], name: &str, value: &str) -> bool {
    h.iter().any(|(n, v)| n == name && v == value)
}

#[test]
fn security_headers_are_on_every_reply() {
    for r in [
        Reply::new(200, Body::Empty),
        Reply::html(400, "x".to_string()),
        Reply::json(401, Value::Null),
        Reply::redirect("/".to_string()),
    ] {
        let h = r.headers();
        assert!(has(&h, "x-frame-options", "DENY"));
        assert!(has(&h, "x-content-type-options", "nosniff"));
        assert!(has(&h, "referrer-policy", "no-referrer"));
        assert!(has(&h, "strict-transport-security", "max-age=63072000; includeSubDomains; preload"));
    }
}

#[test]
fn headers_tell_what_the_reply_holds() {
    let h = Reply::html(200, "x".to_string())
        .with_cookie("a=1".to_string())
        .with_cookie("b=2".to_string())
        .cached("no-store")
        .headers();
    let names: Vec<&str> = h.iter().map(|(n, _)| n.as_str()).collect();
    assert_eq!(names[..4], ["content-type", "cache-control", "set-cookie", "set-cookie"]);
    assert!(has(&h, "content-type", "text/html; charset=utf-8"));
    assert!(has(&h, "set-cookie", "b=2"));
    assert_eq!(h.len(), 8);
    let h = Reply::redirect("/x".to_string()).headers();
    assert!(has(&h, "location", "/x"));
    assert_eq!(h.len(), 5);
    assert!(has(&Reply::json(200, Value::Null).headers(), "content-type", "application/json"));
    assert_eq!(Reply::redirect("/x".to_string()).status, 303);
}

#[test]
fn settings_have_defaults() {
    assert_eq!(default_listen(), "127.0.0.1:8443");
    assert_eq!(default_access_ttl(), 3600);
    assert_eq!(default_session_ttl(), 43200);
    assert_eq!(config().database_path(), "/var/lib/argus/argus.db");
    let mut c = config();
    c.database = "x.db".to_string();
    assert_eq!(c.database_path(), "x.db");
    c.external_url = "https://id.example//".to_string();
    assert_eq!(c.issuer(), "https://id.example");
}

#[test]
fn the_environment_overrides_the_github_credentials() {
    let mut c = config();
    c.github_client_id = Some("file".to_string());
    let c = c.with_environment(None, Some("env".to_string()));
    assert_eq!(c.github_client_id, Some("file".to_string()));
    assert_eq!(c.github_client_secret, Some("env".to_string()));
    let c = c.with_environment(Some("env-id".to_string()), None);
    assert_eq!(c.github_client_id, Some("env-id".to_string()));
    assert_eq!(c.github_client_secret, Some("env".to_string()));
}

#[test]
fn a_page_has_its_title_twice() {
    let p = page("Sign in", "<p>x</p>");
    assert!(p.starts_with("<!DOCTYPE html><html lang=\"en\">"));
    assert!(p.contains("<title>Sign in — Argus</title>"));
    assert!(p.ends_with("<h1>Argus — Sign in</h1><p>x</p></div></body></html>"));
    let r = err_page("broken");
    assert_eq!(r.status, 400);
    match r.body {
        Body::Html(s) => assert!(s.contains("<p>broken</p><a href=\"/login\">Back</a>")),
        other => panic!("{other:?}"),
    }
}

#[test]
fn escaped_text_is_harmless() {
    assert_eq!(html_escape("a<b>&\"c'é"), "a&lt;b&gt;&amp;&quot;c'é");
    assert_eq!(html_escape("&lt;"), "&amp;lt;");
    assert_eq!(html_escape(""), "");
}

#[test]
fn only_local_paths_survive() {
    assert_eq!(safe_next("/"), "/");
    assert_eq!(safe_next("/authorize?x=//y"), "/authorize?x=//y");
    assert_eq!(safe_next("//evil.example"), "/");
    assert_eq!(safe_next("https://evil.example"), "/");
    assert_eq!(safe_next("/\\evil.example"), "/");
    assert_eq!(safe_next(""), "/");
    assert_eq!(safe_next("%2F"), "/");
}
