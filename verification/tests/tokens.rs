//! Minting and verification of tokens.

use argus::crypto::SigningKey;
use argus::crypto::b64url;
use argus::store::User;
use argus::store::tokens_now;
use argus::tokens::{epoch_or_zero, mint_access_token, mint_access_token_at, mint_id_token, mint_id_token_at, now_epoch, read_claims, verify, verify_at, TokenError};
use rsa::pkcs8::{EncodePrivateKey, LineEnding};
use rsa::{BigUint, RsaPrivateKey};
use serde_json::Value;

/// A fixed 1024-bit key.
fn key() -> SigningKey {
    let p = BigUint::parse_bytes(b"13284012994602313665582702863433168659555201018807432869647404198251222984476210382353680421978178417971714920918718875143620477739773308505629948875784689", 10).unwrap();
    let q = BigUint::parse_bytes(b"11057026016947941969457018828438387724524283616086881373289692098949807082653458094846225809042866118755490992104190819828964348434841903354964895625288477", 10).unwrap();
    let private = RsaPrivateKey::from_p_q(p, q, BigUint::from(65537u32)).unwrap();
    let pem = private.to_pkcs8_pem(LineEnding::LF).unwrap();
    SigningKey::from_pem(pem.as_str()).unwrap()
}


const ISS: &str = "http://idp";

fn ann() -> User {
    User {
        id: "usr_1".to_string(),
        email: "a@b.c".to_string(),
        name: "Ann".to_string(),
        password_hash: None,
        github_id: None,
        is_admin: false,
        disabled: false,
    }
}

fn sign(header: &str, payload: &str) -> String {
    let input = format!("{}.{}", b64url(header.as_bytes()), b64url(payload.as_bytes()));
    let sig = key().sign_rs256(input.as_bytes()).unwrap();
    format!("{input}.{}", b64url(&sig))
}

#[test]
fn an_access_token_has_this_form() {
    let (t, exp) = mint_access_token_at(&key(), ISS, &ann(), "svc_demo", "openid", 600, 1000).unwrap();
    assert_eq!(exp, 1600);
    let parts: Vec<&str> = t.split('.').collect();
    assert_eq!(parts.len(), 3);
    assert_eq!(parts[0], b64url(br#"{"alg":"RS256","kid":"e9b624f6e62c4bd4","typ":"JWT"}"#));
    assert_eq!(
        parts[1],
        b64url(br#"{"aud":"svc_demo","email":"a@b.c","exp":1600,"iat":1000,"iss":"http://idp","name":"Ann","scope":"openid","sub":"usr_1"}"#)
    );
    assert_eq!(
        parts[2],
        "FrSdiOWW0YIPAU355uo2QrbafrzZFcZ1vjQnGRq9zRMCqw6JY2FFR3f51aoPmUCiImtzaLKT2LUpzDOgvqNdAkdYshp5iq2I73xzulaKq3O9_BnIXJuh-fLGMMA-kry_ktjavpHpFhfJpFEg4sjB5CNOFM9UXw0wEdZC1JJfyeI"
    );
}

#[test]
fn what_is_minted_is_read_back_until_it_expires() {
    let k = key();
    let (t, _) = mint_access_token_at(&k, ISS, &ann(), "svc_demo", "openid", 600, 1000).unwrap();
    let c = verify_at(&k, ISS, &t, 1600).unwrap();
    assert_eq!((c.iss.as_str(), c.sub.as_str(), c.aud.as_str()), (ISS, "usr_1", "svc_demo"));
    assert_eq!((c.exp, c.iat), (1600, 1000));
    assert_eq!(c.nonce, None);
    assert_eq!(c.email, Some("a@b.c".to_string()));
    assert_eq!(c.name, Some("Ann".to_string()));
    assert_eq!(verify_at(&k, ISS, &t, 1601).unwrap_err(), TokenError::Expired);
}

#[test]
fn an_identity_token_carries_the_nonce() {
    let k = key();
    let nonce = Some("n-1".to_string());
    let t = mint_id_token_at(&k, ISS, &ann(), "svc_demo", &nonce, 600, 1000).unwrap();
    assert_eq!(verify_at(&k, ISS, &t, 1000).unwrap().nonce, nonce);
    let t = mint_id_token_at(&k, ISS, &ann(), "svc_demo", &None, 600, 1000).unwrap();
    assert_eq!(
        t.split('.').nth(1).unwrap(),
        b64url(br#"{"aud":"svc_demo","email":"a@b.c","exp":1600,"iat":1000,"iss":"http://idp","name":"Ann","nonce":null,"sub":"usr_1"}"#)
    );
    assert_eq!(verify_at(&k, ISS, &t, 1000).unwrap().nonce, None);
}

#[test]
fn tokens_minted_now_are_good_now() {
    let k = key();
    let (t, exp) = mint_access_token(&k, ISS, &ann(), "c", "", 600).unwrap();
    assert!(exp >= now_epoch() + 590);
    assert_eq!(verify(&k, ISS, &t).unwrap().sub, "usr_1");
    let t = mint_id_token(&k, ISS, &ann(), "c", &None, 600).unwrap();
    assert_eq!(verify(&k, ISS, &t).unwrap().aud, "c");
}

#[test]
fn a_lifetime_beyond_the_largest_time_is_refused() {
    let e = mint_access_token_at(&key(), ISS, &ann(), "c", "", u64::MAX, 1).unwrap_err();
    assert_eq!(e, TokenError::LifetimeTooLong);
    let e = mint_id_token_at(&key(), ISS, &ann(), "c", &None, u64::MAX, 1).unwrap_err();
    assert_eq!(e, TokenError::LifetimeTooLong);
}

#[test]
fn bad_tokens_are_refused() {
    let k = key();
    let (t, _) = mint_access_token_at(&k, ISS, &ann(), "c", "", 600, 1000).unwrap();
    let parts: Vec<&str> = t.split('.').collect();
    let err = |t: &str| verify_at(&k, ISS, t, 1000).unwrap_err();
    assert_eq!(err(""), TokenError::Malformed);
    assert_eq!(err("a.b"), TokenError::Malformed);
    assert_eq!(err(&format!("{t}.x")), TokenError::Malformed);
    assert_eq!(err(&format!("{}.{}.=", parts[0], parts[1])), TokenError::BadEncoding);
    assert_eq!(err(&format!("{}.{}.AAAA", parts[0], parts[1])), TokenError::BadSignature);
    assert_eq!(err(&format!("{}.{}x.{}", parts[0], parts[1], parts[2])), TokenError::BadSignature);
    assert_eq!(verify_at(&k, "http://other", &t, 1000).unwrap_err(), TokenError::BadIssuer);
    assert_eq!(err(&sign("{}", "no JSON")), TokenError::BadClaims);
    assert_eq!(err(&sign("{}", "{}")), TokenError::BadClaims);
    assert_eq!(
        err(&sign("{}", r#"{"iss":"http://idp","sub":1,"aud":"c","exp":2000,"iat":1}"#)),
        TokenError::BadClaims
    );
    assert!(verify_at(
        &k,
        ISS,
        &sign("{}", r#"{"iss":"http://idp","sub":"s","aud":"c","exp":2000,"iat":1}"#),
        1000
    )
    .is_ok());
    let input = "a.#";
    let sig = b64url(&k.sign_rs256(input.as_bytes()).unwrap());
    assert_eq!(err(&format!("{input}.{sig}")), TokenError::BadEncoding);
}

#[test]
fn another_key_does_not_verify() {
    let (other, _) = SigningKey::generate().unwrap();
    assert_ne!(other.kid(), key().kid());
    let (t, _) = mint_access_token_at(&other, ISS, &ann(), "c", "", 600, 1000).unwrap();
    assert!(verify_at(&other, ISS, &t, 1000).is_ok());
    assert_eq!(verify_at(&key(), ISS, &t, 1000).unwrap_err(), TokenError::BadSignature);
}

#[test]
fn claims_are_read_from_objects() {
    let read = |s: &str| {
        let v: Value = serde_json::from_str(s).unwrap();
        read_claims(&v)
    };
    let c = read(r#"{"iss":"i","sub":"s","aud":"a","exp":2,"iat":1,"nonce":null,"email":"e"}"#).unwrap();
    assert_eq!((c.nonce, c.email, c.name), (None, Some("e".to_string()), None));
    assert!(read(r#"{"iss":"i","sub":"s","aud":"a","exp":-2,"iat":1}"#).is_none());
    assert!(read(r#"{"iss":"i","sub":"s","aud":"a","exp":2.5,"iat":1}"#).is_none());
    assert!(read(r#"{"iss":"i","sub":"s","aud":"a","exp":2,"iat":1,"name":7}"#).is_none());
    assert!(read(r#"{"sub":"s","aud":"a","exp":2,"iat":1}"#).is_none());
    assert!(read("[]").is_none());
}

#[test]
fn the_clock_counts_seconds() {
    let t = now_epoch();
    assert!(t > 1_600_000_000);
    assert!(tokens_now() >= t);
    assert_eq!(epoch_or_zero(Some(7)), 7);
    assert_eq!(epoch_or_zero(None), 0);
    assert!(epoch_or_zero(None) <= epoch_or_zero(Some(0)));
    assert!(epoch_or_zero(Some(7)) <= epoch_or_zero(Some(8)));
}
