//! Passwords, random tokens, signing keys.

use argus::crypto::SigningKey;
use argus::crypto::{b64url, hash_password, key_plan, rand_token, s256_challenge, verify_password, KeyPlan};
use rsa::pkcs8::{EncodePrivateKey, LineEnding};
use rsa::{BigUint, RsaPrivateKey};

/// A fixed 1024-bit key.
fn key() -> SigningKey {
    let p = BigUint::parse_bytes(b"13284012994602313665582702863433168659555201018807432869647404198251222984476210382353680421978178417971714920918718875143620477739773308505629948875784689", 10).unwrap();
    let q = BigUint::parse_bytes(b"11057026016947941969457018828438387724524283616086881373289692098949807082653458094846225809042866118755490992104190819828964348434841903354964895625288477", 10).unwrap();
    let private = RsaPrivateKey::from_p_q(p, q, BigUint::from(65537u32)).unwrap();
    let pem = private.to_pkcs8_pem(LineEnding::LF).unwrap();
    SigningKey::from_pem(pem.as_str()).unwrap()
}


#[test]
fn a_password_matches_its_hash_alone() {
    let h = hash_password("pw1234567890").unwrap();
    assert!(h.starts_with("$argon2id$"));
    assert!(verify_password("pw1234567890", &h));
    assert!(!verify_password("pw1234567891", &h));
    assert!(!verify_password("pw1234567890", "no hash"));
    assert!(!verify_password("pw1234567890", ""));
    assert!(!verify_password("pw1234567890", "pw1234567890"));
    assert_ne!(h, hash_password("pw1234567890").unwrap());
}

#[test]
fn challenge_is_the_digest_of_the_verifier() {
    assert_eq!(
        s256_challenge("dBjftJeZ4CVP-mB92K27uhbUJU1p1r_wW1gFWFOEjXk"),
        "E9Melhoa2OwvFrEMTJguCHaoeK1t8URWbuGJSstw-cM"
    );
    assert_eq!(s256_challenge(""), "47DEQpj8HBSa-_TImW-5JCeuQeRkm5NMpJWZG3hSuFU");
}

#[test]
fn random_tokens_are_long_enough_and_differ() {
    let t = rand_token(32);
    assert_eq!(t.len(), 43);
    assert!(t.chars().all(|c| c.is_ascii_alphanumeric() || c == '-' || c == '_'));
    assert_ne!(t, rand_token(32));
    assert_eq!(rand_token(0), "");
}

#[test]
fn the_key_identifier_is_the_digest_of_the_public_half() {
    assert_eq!(key().kid(), "e9b624f6e62c4bd4");
}

#[test]
fn the_published_key_is_the_public_half() {
    let jwk = key().jwk();
    assert_eq!(jwk["kty"], "RSA");
    assert_eq!(jwk["use"], "sig");
    assert_eq!(jwk["alg"], "RS256");
    assert_eq!(jwk["kid"], "e9b624f6e62c4bd4");
    assert_eq!(jwk["e"], "AQAB");
    assert_eq!(
        jwk["n"],
        "0SqckGPKhgo2zD8SOfQ0Uf8ZuwZ7t3R48vv_UirTq9hrbh4OMpa4h9Mh1wwQR7yYv1nXoLRdGTxhaaWVwLzG3Ihkx3vmxsce5gc43HbU5js2LfDUStZCkWJIdYDDKBqHe1lDY5jADRUH-YttQSpQw2Fug3O2NsmkqLJ7bhG8Y00"
    );
    assert_eq!(jwk.as_object().unwrap().len(), 6);
}

#[test]
fn signatures_are_those_of_rs256() {
    let k = key();
    let sig = k.sign_rs256(b"hello").unwrap();
    assert_eq!(
        b64url(&sig),
        "Pr0Gxqh-h-TgkxgdFRadI2UmNxDtBm1DJcvLT2Oc7ZhfnkaarryBRonTeHMFy6kbxF5CkH_qBq7ELcbsBhTHggHskjiZDSQxxwjuA7TktunDQ0XZsdamgHgrfVHHvKH6-s7c4FZqJzUDyMhPrXRfFw4L98MvBtjkzANpupz23tw"
    );
    assert!(k.verify_rs256(b"hello", &sig));
    assert!(!k.verify_rs256(b"hellp", &sig));
    assert!(!k.verify_rs256(b"hello", &sig[1..]));
    assert!(!k.verify_rs256(b"hello", b""));
}

#[test]
fn a_text_without_a_key_gives_none() {
    assert!(SigningKey::from_pem("").is_none());
    assert!(SigningKey::from_pem("not a key").is_none());
}

#[test]
fn white_space_around_a_key_is_dropped() {
    let p = RsaPrivateKey::from_p_q(
        BigUint::parse_bytes(b"13284012994602313665582702863433168659555201018807432869647404198251222984476210382353680421978178417971714920918718875143620477739773308505629948875784689", 10).unwrap(),
        BigUint::parse_bytes(b"11057026016947941969457018828438387724524283616086881373289692098949807082653458094846225809042866118755490992104190819828964348434841903354964895625288477", 10).unwrap(),
        BigUint::from(65537u32),
    )
    .unwrap();
    let pem = p.to_pkcs8_pem(LineEnding::LF).unwrap();
    let padded = format!("\n  {}\n\n", pem.as_str());
    assert_eq!(SigningKey::from_pem(&padded).unwrap().kid(), key().kid());
}

#[test]
fn the_source_of_the_key_is_decided_by_its_file() {
    assert!(matches!(
        key_plan(false, Some("pem".to_string()), true),
        KeyPlan::Create { persist: false }
    ));
    match key_plan(true, Some("pem".to_string()), true) {
        KeyPlan::Use(s) => assert_eq!(s, "pem"),
        other => panic!("{other:?}"),
    }
    assert!(matches!(key_plan(true, None, false), KeyPlan::Create { persist: true }));
    assert!(matches!(key_plan(true, None, true), KeyPlan::Refuse));
}

#[test]
fn a_generated_key_comes_with_its_text() {
    let (k, pem) = SigningKey::generate().unwrap();
    assert_eq!(SigningKey::from_pem(&pem).unwrap().kid(), k.kid());
    assert_eq!(k.jwk()["n"].as_str().unwrap().len(), (4 * 256 + 2) / 3);
    let (again, text) = SigningKey::from_generated(Some(pem.clone())).unwrap();
    assert_eq!((again.kid(), text), (k.kid(), pem));
    assert!(SigningKey::from_generated(None).is_none());
    assert!(SigningKey::from_generated(Some("not a key".to_string())).is_none());
}

#[test]
fn a_hash_with_too_much_parallelism_matches_nothing() {
    let h = hash_password("pw1234567890").unwrap();
    assert!(h.contains(",p=1$"));
    for p in ["536870912", "4294967295", "100000000", "99999999", "16777216", "0", ""] {
        assert!(!verify_password("pw1234567890", &h.replace(",p=1$", &format!(",p={p}$"))));
    }
    assert!(!verify_password("pw1234567890", &h.replace(",p=1$", ",p=1,p=536870912$")));
}

#[test]
fn a_key_whose_second_prime_is_far_longer_is_refused() {
    let three = BigUint::from(3u32);
    let long = BigUint::parse_bytes(b"13284012994602313665582702863433168659555201018807432869647404198251222984476210382353680421978178417971714920918718875143620477739773308505629948875784689", 10).unwrap();
    let pem = |p: &BigUint, q: &BigUint| {
        let private = RsaPrivateKey::from_p_q(p.clone(), q.clone(), BigUint::from(65537u32)).unwrap();
        private.to_pkcs8_pem(LineEnding::LF).unwrap().to_string()
    };
    assert!(SigningKey::from_pem(&pem(&three, &long)).is_none());
    let k = SigningKey::from_pem(&pem(&long, &three)).unwrap();
    let sig = k.sign_rs256(b"hello").unwrap();
    assert!(k.verify_rs256(b"hello", &sig));
}
