//! The store: queries, changes, and what is refused.

use argus::rows::{AgentRow, ClientRow, CodeRow, Consent, RefreshToken, Session};
use argus::store::{AuthCode, Store, StoreError, User};
use argus::tables::Change;
use serde_json::Value;

fn add_user(s: &mut Store, id: &str, email: &str, github: Option<&str>) -> Result<(), StoreError> {
    s.create_user(id, email, "N", None, github.map(String::from), false, 10)
}

fn code(code: &str, expires_at: u64) -> AuthCode {
    AuthCode {
        code: code.to_string(),
        client_id: "c".to_string(),
        redirect_uri: "http://x/cb".to_string(),
        scope: "openid".to_string(),
        user_id: "u".to_string(),
        code_challenge: None,
        code_challenge_meth: None,
        nonce: Some("n".to_string()),
        issued_at: 100,
        expires_at,
    }
}

#[test]
fn a_stored_user_is_found_by_every_key() {
    let mut s = Store::new();
    s.create_user("u1", "a@b.c", "Ann", Some("h".to_string()), Some("77".to_string()), true, 10)
        .unwrap();
    for u in [
        s.user_by_id("u1").unwrap().unwrap(),
        s.user_by_email("a@b.c").unwrap().unwrap(),
        s.user_by_github_id("77").unwrap().unwrap(),
    ] {
        assert_eq!((u.id.as_str(), u.email.as_str(), u.name.as_str()), ("u1", "a@b.c", "Ann"));
        assert_eq!(u.password_hash, Some("h".to_string()));
        assert_eq!(u.github_id, Some("77".to_string()));
        assert!(u.is_admin && !u.disabled);
    }
    assert!(s.user_by_id("u2").unwrap().is_none());
    assert!(s.user_by_email("A@b.c").unwrap().is_none());
    assert!(s.user_by_github_id("7").unwrap().is_none());
}

#[test]
fn keys_stay_unique() {
    let mut s = Store::new();
    add_user(&mut s, "u1", "a@b.c", Some("77")).unwrap();
    assert_eq!(add_user(&mut s, "u1", "x@b.c", None), Err(StoreError::Rejected));
    assert_eq!(add_user(&mut s, "u2", "a@b.c", None), Err(StoreError::Rejected));
    assert_eq!(add_user(&mut s, "u2", "x@b.c", Some("77")), Err(StoreError::Rejected));
    add_user(&mut s, "u2", "x@b.c", None).unwrap();
    add_user(&mut s, "u3", "y@b.c", None).unwrap();
    assert_eq!(s.link_github("u2", "77"), Err(StoreError::Rejected));
    assert_eq!(s.link_github("u1", "77"), Ok(()));
    assert_eq!(s.link_github("nobody", "77"), Ok(()));
    assert_eq!(s.link_github("u2", "78"), Ok(()));
    assert_eq!(s.user_by_github_id("78").unwrap().unwrap().id, "u2");
    s.create_session("s", "u1", 10, "", 100).unwrap();
    assert_eq!(s.create_session("s", "u2", 10, "", 100), Err(StoreError::Rejected));
    s.create_client("c", None, "C", "", "", "static", 0).unwrap();
    assert_eq!(s.create_client("c", None, "D", "", "", "static", 0), Err(StoreError::Rejected));
    s.put_auth_code(&code("k", 200)).unwrap();
    assert_eq!(s.put_auth_code(&code("k", 300)), Err(StoreError::Rejected));
    s.put_refresh("r", "u1", "c", "", 10, 100).unwrap();
    assert_eq!(s.put_refresh("r", "u2", "c", "", 10, 100), Err(StoreError::Rejected));
    s.create_agent("a", "u1", "A", "h", &Vec::new(), &Value::Null, 1).unwrap();
    assert_eq!(
        s.create_agent("a", "u2", "A", "h", &Vec::new(), &Value::Null, 1),
        Err(StoreError::Rejected)
    );
}

#[test]
fn times_out_of_range_are_refused() {
    let mut s = Store::new();
    assert_eq!(s.create_session("s", "u", u64::MAX, "", 100), Err(StoreError::Rejected));
    assert_eq!(s.put_refresh("r", "u", "c", "", u64::MAX, 100), Err(StoreError::Rejected));
    assert_eq!(s.put_auth_code(&code("k", 1 << 63)), Err(StoreError::Rejected));
    assert_eq!(s.put_auth_code(&code("k", (1 << 63) - 1)), Ok(()));
    assert!(matches!(s.session_user("s", 1 << 63), Err(StoreError::Rejected)));
    assert!(matches!(s.take_auth_code("k", 1 << 63), Err(StoreError::Rejected)));
    assert!(matches!(s.rotate_refresh("r", "q", 1 << 63), Err(StoreError::Rejected)));
}

#[test]
fn an_unreachable_store_refuses_everything_and_stays() {
    let mut s = Store::new();
    add_user(&mut s, "u1", "a@b.c", None).unwrap();
    s.set_reachable(false);
    assert_eq!(add_user(&mut s, "u2", "x@b.c", None), Err(StoreError::Unreachable));
    assert!(matches!(s.user_by_id("u1"), Err(StoreError::Unreachable)));
    assert!(matches!(s.user_by_email("a@b.c"), Err(StoreError::Unreachable)));
    assert!(matches!(s.user_by_github_id("1"), Err(StoreError::Unreachable)));
    assert!(matches!(s.session_user("s", 0), Err(StoreError::Unreachable)));
    assert!(matches!(s.client("c"), Err(StoreError::Unreachable)));
    assert!(matches!(s.consent("u", "c", "s"), Err(StoreError::Unreachable)));
    assert!(matches!(s.take_auth_code("k", 0), Err(StoreError::Unreachable)));
    assert!(matches!(s.rotate_refresh("r", "q", 0), Err(StoreError::Unreachable)));
    assert!(matches!(s.agent_by_id("a"), Err(StoreError::Unreachable)));
    assert!(matches!(s.agents_for_owner("u"), Err(StoreError::Unreachable)));
    assert!(matches!(s.set_agent_status("a", "u", "active"), Err(StoreError::Unreachable)));
    assert_eq!(s.touch_agent("a", 0), Err(StoreError::Unreachable));
    s.set_reachable(true);
    assert_eq!(s.take_journal().len(), 1);
    assert!(s.user_by_id("u2").unwrap().is_none());
}

#[test]
fn passwords_and_promotions_reach_one_person() {
    let mut s = Store::new();
    add_user(&mut s, "u1", "a@b.c", None).unwrap();
    add_user(&mut s, "u2", "x@b.c", None).unwrap();
    s.set_password_hash("u2", Some("h2".to_string())).unwrap();
    assert_eq!(s.user_by_id("u2").unwrap().unwrap().password_hash, Some("h2".to_string()));
    assert_eq!(s.user_by_id("u1").unwrap().unwrap().password_hash, None);
    s.set_password_hash("u2", None).unwrap();
    assert_eq!(s.user_by_id("u2").unwrap().unwrap().password_hash, None);
    assert!(!s.was_promoted("a@b.c"));
    s.promote_admin("a@b.c").unwrap();
    s.promote_admin("a@b.c").unwrap();
    assert!(s.user_by_id("u1").unwrap().unwrap().is_admin);
    assert!(!s.user_by_id("u2").unwrap().unwrap().is_admin);
    assert!(s.was_promoted("a@b.c"));
    assert!(!s.was_promoted("x@b.c"));
    s.promote_admin("no@b.c").unwrap();
    assert!(!s.was_promoted("no@b.c"));
}

#[test]
fn a_session_lasts_until_it_expires_or_ends() {
    let mut s = Store::new();
    add_user(&mut s, "u1", "a@b.c", None).unwrap();
    s.create_session("s1", "u1", 60, "1.2.3.4", 100).unwrap();
    s.create_session("s2", "gone", 60, "", 100).unwrap();
    assert_eq!(s.session_user("s1", 159).unwrap().unwrap().id, "u1");
    assert!(s.session_user("s1", 160).unwrap().is_none());
    assert!(s.session_user("s2", 100).unwrap().is_none());
    assert!(s.session_user("s3", 100).unwrap().is_none());
    s.delete_session("s1").unwrap();
    assert!(s.session_user("s1", 100).unwrap().is_none());
}

#[test]
fn a_disabled_person_has_no_session() {
    let disabled = User {
        id: "u1".to_string(),
        email: "a@b.c".to_string(),
        name: "A".to_string(),
        password_hash: None,
        github_id: None,
        is_admin: false,
        disabled: true,
    };
    let session = Session {
        id: "s".to_string(),
        user_id: "u1".to_string(),
        created_at: 0,
        expires_at: 100,
        ip: String::new(),
    };
    let s = Store::load(
        vec![disabled],
        vec![session],
        Vec::<ClientRow>::new(),
        Vec::<CodeRow>::new(),
        Vec::<Consent>::new(),
        Vec::<RefreshToken>::new(),
        Vec::<AgentRow>::new(),
        Vec::<String>::new(),
    );
    assert!(s.user_by_id("u1").unwrap().is_some());
    assert!(s.session_user("s", 50).unwrap().is_none());
}

#[test]
fn redirect_uris_stand_one_to_a_line() {
    let mut s = Store::new();
    s.create_client("c", Some("h".to_string()), "C", " http://a/cb \r\n\n\thttp://b/cb\n", "x y", "static", 0)
        .unwrap();
    let c = s.client("c").unwrap().unwrap();
    assert_eq!(c.redirect_uris, vec!["http://a/cb".to_string(), "http://b/cb".to_string()]);
    assert_eq!((c.client_id.as_str(), c.name.as_str(), c.scopes.as_str()), ("c", "C", "x y"));
    assert_eq!(c.secret_hash, Some("h".to_string()));
    assert!(s.client("d").unwrap().is_none());
}

#[test]
fn a_code_is_redeemed_once() {
    let mut s = Store::new();
    s.put_auth_code(&code("k", 200)).unwrap();
    let c = s.take_auth_code("k", 199).unwrap().unwrap();
    assert_eq!(c.nonce, Some("n".to_string()));
    assert_eq!((c.issued_at, c.expires_at), (100, 200));
    assert!(s.take_auth_code("k", 199).unwrap().is_none());
    assert_eq!(s.put_auth_code(&code("k", 900)), Err(StoreError::Rejected));
    s.put_auth_code(&code("l", 200)).unwrap();
    assert!(s.take_auth_code("l", 200).unwrap().is_none());
    assert!(s.take_auth_code("l", 199).unwrap().is_some());
}

#[test]
fn the_last_decision_counts() {
    let mut s = Store::new();
    assert_eq!(s.consent("u", "c", "openid").unwrap(), None);
    s.save_consent("u", "c", "openid", "denied", 1).unwrap();
    s.save_consent("u", "c", "email", "approved", 2).unwrap();
    assert_eq!(s.consent("u", "c", "openid").unwrap(), Some("denied".to_string()));
    s.save_consent("u", "c", "openid", "approved", 3).unwrap();
    assert_eq!(s.consent("u", "c", "openid").unwrap(), Some("approved".to_string()));
    assert_eq!(s.consent("u", "d", "openid").unwrap(), None);
    assert_eq!(s.consent("v", "c", "openid").unwrap(), None);
}

#[test]
fn a_refresh_token_works_once() {
    let mut s = Store::new();
    s.put_refresh("r", "u", "c", "openid", 60, 100).unwrap();
    assert!(s.rotate_refresh("r", "q", 160).unwrap().is_none());
    assert_eq!(
        s.rotate_refresh("r", "q", 159).unwrap(),
        Some(("u".to_string(), "c".to_string(), "openid".to_string()))
    );
    assert!(s.rotate_refresh("r", "p", 159).unwrap().is_none());
    assert!(s.rotate_refresh("q", "p", 159).unwrap().is_none());
}

#[test]
fn agents_are_listed_oldest_first() {
    let mut s = Store::new();
    let scopes = vec!["miser:route".to_string(), "relay:call".to_string()];
    for (id, owner, at) in [("a1", "u", 30), ("a2", "v", 5), ("a3", "u", 10), ("a4", "u", 30), ("a5", "u", 20)] {
        s.create_agent(id, owner, "N", "h", &scopes, &Value::Null, at).unwrap();
    }
    let ids: Vec<String> = s.agents_for_owner("u").unwrap().iter().map(|a| a.id.clone()).collect();
    assert_eq!(ids, vec!["a3", "a5", "a1", "a4"]);
    let a = s.agent_by_id("a2").unwrap().unwrap();
    assert_eq!(a.scopes, scopes);
    assert_eq!((a.owner_user_id.as_str(), a.status.as_str(), a.created_at), ("v", "active", 5));
    assert!(s.agent_by_id("a9").unwrap().is_none());
    assert!(s.agents_for_owner("w").unwrap().is_empty());
}

#[test]
fn only_the_owner_sets_the_status() {
    let mut s = Store::new();
    s.create_agent("a", "u", "N", "h", &Vec::new(), &Value::Null, 1).unwrap();
    assert_eq!(s.set_agent_status("a", "v", "revoked"), Ok(false));
    assert_eq!(s.agent_by_id("a").unwrap().unwrap().status, "active");
    assert_eq!(s.set_agent_status("a", "u", "revoked"), Ok(true));
    assert_eq!(s.agent_by_id("a").unwrap().unwrap().status, "revoked");
    assert_eq!(s.set_agent_status("b", "u", "revoked"), Ok(false));
}

#[test]
fn the_journal_holds_every_change_in_order() {
    let mut s = Store::new();
    add_user(&mut s, "u1", "a@b.c", None).unwrap();
    let _ = add_user(&mut s, "u1", "a@b.c", None);
    let mut detail = serde_json::Map::new();
    detail.insert("k".to_string(), Value::from("v\"w"));
    s.audit("event", Some("u1".to_string()), Value::Object(detail), 7).unwrap();
    s.touch_agent("a", 8).unwrap();
    let j = s.take_journal();
    assert_eq!(j.len(), 3);
    match &j[0] {
        Change::InsertUser { user, created_at } => assert_eq!((user.id.as_str(), *created_at), ("u1", 10)),
        other => panic!("{other:?}"),
    }
    match &j[1] {
        Change::InsertAudit { entry } => {
            assert_eq!((entry.at, entry.event.as_str()), (7, "event"));
            assert_eq!(entry.user_id, Some("u1".to_string()));
            assert_eq!(entry.detail, r#"{"k":"v\"w"}"#);
        }
        other => panic!("{other:?}"),
    }
    match &j[2] {
        Change::TouchAgent { id, at } => assert_eq!((id.as_str(), *at), ("a", 8)),
        other => panic!("{other:?}"),
    }
    assert!(s.take_journal().is_empty());
}

#[test]
fn some_changes_have_to_be_written() {
    let mut s = Store::new();
    add_user(&mut s, "u1", "a@b.c", None).unwrap();
    s.promote_admin("a@b.c").unwrap();
    s.create_session("s", "u1", 60, "", 10).unwrap();
    s.put_auth_code(&code("k", 400)).unwrap();
    s.take_auth_code("k", 200).unwrap();
    s.audit("e", None, Value::Null, 10).unwrap();
    let essential: Vec<bool> = s.take_journal().iter().map(|c| c.is_essential()).collect();
    assert_eq!(essential, vec![true, false, false, true, true, false]);
}

#[test]
fn listed_agents_are_those_found_by_their_identifiers() {
    let mut s = Store::new();
    for (id, owner, at) in [("agt_1", "u", 3), ("agt_2", "v", 1), ("agt_3", "u", 2)] {
        s.create_agent(id, owner, "n", "h", &Vec::new(), &Value::Null, at).unwrap();
    }
    s.set_agent_status("agt_3", "u", "revoked").unwrap();
    let listed = s.agents_for_owner("u").unwrap();
    let ids: Vec<&str> = listed.iter().map(|a| a.id.as_str()).collect();
    assert_eq!(ids, vec!["agt_3", "agt_1"]);
    for a in &listed {
        assert_eq!(format!("{a:?}"), format!("{:?}", s.agent_by_id(&a.id).unwrap().unwrap()));
        assert!(a.scopes.is_empty());
    }
    assert!(s.agents_for_owner("nobody").unwrap().is_empty());
}
