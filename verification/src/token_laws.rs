//! What tokens say, when they are minted, and when they are accepted.

use crate::crypto;
use crate::crypto::KeyV;
use crate::encoding;
use crate::json;
use crate::json::JsonV;
use crate::rows::UserV;
use crate::text;
use crate::tokens;
use crate::tokens::{ClaimsV, TokenError};
use vstd::prelude::*;
use vstd::string::*;
use vstd::utf8::*;

verus! {

/// Whether a token has three parts, of which this one is the text of a JSON value in base64 for URLs.
pub open spec fn carries(token: Seq<char>, i: int, v: JsonV) -> bool {
    text::split(token, '.').len() == 3 && text::split(token, '.')[i] == encoding::base64(
        encode_utf8(json::json_text(v)),
        true,
    )
}

/// Whether the last part of a token is the signature of a key on the first two.
pub open spec fn is_signed(key: KeyV, token: Seq<char>) -> bool {
    let parts = text::split(token, '.');
    parts.len() == 3 && exists|sig: Seq<u8>|
        #[trigger] encoding::base64(sig, true) == parts[2] && crypto::rs256_signature(
            key.pem,
            encode_utf8(parts[0] + "."@ + parts[1]),
        ) == Some(sig)
}

proof fn signed_parts(key: KeyV, claims: JsonV)
    ensures
        tokens::signed(key, claims) matches Some(t) ==> {
            &&& carries(t, 0, tokens::header_view(key.kid))
            &&& carries(t, 1, claims)
            &&& is_signed(key, t)
        },
        (forall|b: Seq<u8>| (#[trigger] crypto::rs256_signature(key.pem, b)) is Some) ==> tokens::signed(
            key,
            claims,
        ) is Some,
{
    let h = tokens::part(tokens::header_view(key.kid));
    let p = tokens::part(claims);
    let input = tokens::signing_input(key.kid, claims);
    match crypto::rs256_signature(key.pem, encode_utf8(input)) {
        Some(sig) => {
            let s = encoding::base64(sig, true);
            tokens::base64_has_no_dot(encode_utf8(json::json_text(tokens::header_view(key.kid))));
            tokens::base64_has_no_dot(encode_utf8(json::json_text(claims)));
            tokens::base64_has_no_dot(sig);
            tokens::three_parts(h, p, s);
            assert(input + "."@ + s == h + "."@ + p + "."@ + s);
            assert(text::split(input + "."@ + s, '.')[0] == h);
            assert(encoding::base64(sig, true) == text::split(input + "."@ + s, '.')[2]);
        },
        None => {},
    }
}

/// An access token names the issuer, the person, the client, the whole scope, the person's email and
/// name, when it was made and when it ends; it says by which key and in which way it is signed, and is
/// signed so. It ends when its lifetime is over.
pub proof fn what_an_access_token_says(
    key: KeyV,
    issuer: Seq<char>,
    user: UserV,
    client_id: Seq<char>,
    scope: Seq<char>,
    ttl: u64,
    now: u64,
)
    ensures
        tokens::access_token(key, issuer, user, client_id, scope, ttl, now) matches Ok(t) ==> {
            &&& t.1 == now + ttl
            &&& is_signed(key, t.0)
            &&& exists|h: JsonV| #[trigger]
                carries(t.0, 0, h) && json::member_str(h, "alg"@) == Some("RS256"@) && json::member_str(
                    h,
                    "typ"@,
                ) == Some("JWT"@) && json::member_str(h, "kid"@) == Some(key.kid)
            &&& exists|v: JsonV| #[trigger]
                carries(t.0, 1, v) && {
                    &&& json::member_str(v, "iss"@) == Some(issuer)
                    &&& json::member_str(v, "sub"@) == Some(user.id)
                    &&& json::member_str(v, "aud"@) == Some(client_id)
                    &&& json::member_str(v, "scope"@) == Some(scope)
                    &&& json::member_str(v, "email"@) == Some(user.email)
                    &&& json::member_str(v, "name"@) == Some(user.name)
                    &&& json::member_num(v, "exp"@) == Some(t.1)
                    &&& json::member_num(v, "iat"@) == Some(now)
                }
        },
{
    if now + ttl <= u64::MAX {
        let exp = (now + ttl) as u64;
        let p = tokens::access_members(issuer, user, client_id, scope, exp, now);
        let v = json::object(p);
        signed_parts(key, v);
        tokens::header_read(key.kid);
        tokens::access_claims_read(issuer, user, client_id, scope, exp, now);
        match tokens::access_token(key, issuer, user, client_id, scope, ttl, now) {
            Ok(t) => {
                assert(carries(t.0, 0, tokens::header_view(key.kid)));
                assert(carries(t.0, 1, v));
                assert(json::member_str(v, "email"@) == Some(user.email));
                assert(json::member_str(v, "name"@) == Some(user.name));
                assert(json::member_str(v, "scope"@) == Some(scope));
            },
            Err(_) => {},
        }
    }
}

/// An identity token names the issuer, the person, the client, the nonce of the query, the person's email
/// and name, when it was made and when it ends; it says by which key and in which way it is signed, and
/// is signed so.
pub proof fn what_an_identity_token_says(
    key: KeyV,
    issuer: Seq<char>,
    user: UserV,
    client_id: Seq<char>,
    nonce: Option<Seq<char>>,
    ttl: u64,
    now: u64,
)
    ensures
        tokens::id_token(key, issuer, user, client_id, nonce, ttl, now) matches Ok(t) ==> {
            &&& is_signed(key, t)
            &&& exists|h: JsonV| #[trigger]
                carries(t, 0, h) && json::member_str(h, "alg"@) == Some("RS256"@) && json::member_str(
                    h,
                    "typ"@,
                ) == Some("JWT"@) && json::member_str(h, "kid"@) == Some(key.kid)
            &&& exists|v: JsonV| #[trigger]
                carries(t, 1, v) && {
                    &&& json::member_str(v, "iss"@) == Some(issuer)
                    &&& json::member_str(v, "sub"@) == Some(user.id)
                    &&& json::member_str(v, "aud"@) == Some(client_id)
                    &&& json::member_str(v, "nonce"@) == nonce
                    &&& json::member_str(v, "email"@) == Some(user.email)
                    &&& json::member_str(v, "name"@) == Some(user.name)
                    &&& now + ttl <= u64::MAX
                    &&& json::member_num(v, "exp"@) == Some((now + ttl) as u64)
                    &&& json::member_num(v, "iat"@) == Some(now)
                }
        },
{
    if now + ttl <= u64::MAX {
        let exp = (now + ttl) as u64;
        let p = tokens::id_members(issuer, user, client_id, nonce, exp, now);
        let v = json::object(p);
        signed_parts(key, v);
        tokens::header_read(key.kid);
        tokens::id_claims_read(issuer, user, client_id, nonce, exp, now);
        match tokens::id_token(key, issuer, user, client_id, nonce, ttl, now) {
            Ok(t) => {
                assert(carries(t, 0, tokens::header_view(key.kid)));
                assert(carries(t, 1, v));
                assert(json::member_str(v, "email"@) == Some(user.email));
                assert(json::member_str(v, "name"@) == Some(user.name));
                assert(json::member_str(v, "nonce"@) == nonce);
            },
            Err(_) => {},
        }
    }
}

/// Tokens are minted wherever the key signs and their end is a time at all; else the reason is given.
pub proof fn when_tokens_are_minted(
    key: KeyV,
    issuer: Seq<char>,
    user: UserV,
    client_id: Seq<char>,
    scope: Seq<char>,
    nonce: Option<Seq<char>>,
    ttl: u64,
    now: u64,
)
    ensures
        ({
            let access = tokens::access_token(key, issuer, user, client_id, scope, ttl, now);
            let id = tokens::id_token(key, issuer, user, client_id, nonce, ttl, now);
            let signs = forall|b: Seq<u8>| (#[trigger] crypto::rs256_signature(key.pem, b)) is Some;
            &&& now + ttl <= u64::MAX && signs ==> access is Ok && id is Ok
            &&& now + ttl > u64::MAX <==> access == Err::<(Seq<char>, u64), TokenError>(TokenError::LifetimeTooLong)
            &&& now + ttl > u64::MAX <==> id == Err::<Seq<char>, TokenError>(TokenError::LifetimeTooLong)
            &&& now + ttl <= u64::MAX && access is Err ==> access == Err::<(Seq<char>, u64), TokenError>(
                TokenError::SigningFailed,
            )
            &&& now + ttl <= u64::MAX && id is Err ==> id == Err::<Seq<char>, TokenError>(TokenError::SigningFailed)
        }),
{
    if now + ttl <= u64::MAX {
        let exp = (now + ttl) as u64;
        signed_parts(key, json::object(tokens::access_members(issuer, user, client_id, scope, exp, now)));
        signed_parts(key, json::object(tokens::id_members(issuer, user, client_id, nonce, exp, now)));
    }
}

/// The text of a member that may be missing or null.
pub open spec fn text_or_missing(v: JsonV, key: Seq<char>, t: Option<Seq<char>>) -> bool {
    match t {
        Some(s) => json::member(v, key) == Some(JsonV::Str(s)),
        None => json::member(v, key) is None || json::member(v, key) == Some(JsonV::Null),
    }
}

/// Whether JSON says what the claims say.
pub open spec fn agree(v: JsonV, c: ClaimsV) -> bool {
    &&& json::member(v, "iss"@) == Some(JsonV::Str(c.iss))
    &&& json::member(v, "sub"@) == Some(JsonV::Str(c.sub))
    &&& json::member(v, "aud"@) == Some(JsonV::Str(c.aud))
    &&& json::member(v, "exp"@) == Some(JsonV::Num(c.exp))
    &&& json::member(v, "iat"@) == Some(JsonV::Num(c.iat))
    &&& text_or_missing(v, "nonce"@, c.nonce)
    &&& text_or_missing(v, "email"@, c.email)
    &&& text_or_missing(v, "name"@, c.name)
}

/// Whether the last part of a token is a valid signature on the first two.
pub open spec fn signature_holds(key: KeyV, token: Seq<char>) -> bool {
    let parts = text::split(token, '.');
    parts.len() == 3 && exists|sig: Seq<u8>|
        #[trigger] encoding::base64(sig, true) == parts[2] && crypto::rs256_valid(
            key.pem,
            encode_utf8(parts[0] + "."@ + parts[1]),
            sig,
        )
}

/// A token is accepted only if it is signed with the key, its payload says what is read from it, the
/// issuer is the expected one, and its last second has not passed.
pub proof fn what_acceptance_means(key: KeyV, issuer: Seq<char>, token: Seq<char>, now: u64, c: ClaimsV)
    requires
        tokens::verified(key, issuer, token, now) == Ok::<ClaimsV, TokenError>(c),
    ensures
        signature_holds(key, token),
        tokens::part_json(token, 1) matches Some(v) && agree(v, c),
        c.iss == issuer,
        now <= c.exp,
{
    let parts = text::split(token, '.');
    let sig = encoding::base64_bytes(parts[2], true)->0;
    assert(encoding::base64(sig, true) == parts[2]);
}

/// A token that is signed with the key, that the issuer made and whose last second has not passed is
/// accepted, and what it says is read from it. After its last second it has expired.
pub proof fn what_is_accepted(key: KeyV, issuer: Seq<char>, token: Seq<char>, now: u64, v: JsonV, c: ClaimsV)
    requires
        signature_holds(key, token),
        tokens::part_json(token, 1) == Some(v),
        agree(v, c),
        c.iss == issuer,
    ensures
        tokens::verified(key, issuer, token, now) == if now <= c.exp {
            Ok::<ClaimsV, TokenError>(c)
        } else {
            Err(TokenError::Expired)
        },
{
    let parts = text::split(token, '.');
    let sig = choose|sig: Seq<u8>|
        #[trigger] encoding::base64(sig, true) == parts[2] && crypto::rs256_valid(
            key.pem,
            encode_utf8(parts[0] + "."@ + parts[1]),
            sig,
        );
    encoding::base64_round_trip(sig, true);
}

/// Whether the payload of a token says what the claims say.
pub open spec fn claims_say(token: Seq<char>, c: ClaimsV) -> bool {
    tokens::part_json(token, 1) matches Some(v) && agree(v, c)
}

/// The reason for which a token is refused is the first that holds: it has not three parts, its signature is
/// no base64, it is not signed with the key, its claims are no base64 or no claims, another issuer made it,
/// or it has expired.
pub proof fn why_tokens_are_refused(key: KeyV, issuer: Seq<char>, token: Seq<char>, now: u64)
    ensures
        ({
            let parts = text::split(token, '.');
            let r = tokens::verified(key, issuer, token, now);
            let readable = |i: int| exists|b: Seq<u8>| #[trigger] encoding::base64(b, true) == parts[i];
            &&& parts.len() != 3 <==> r == Err::<ClaimsV, TokenError>(TokenError::Malformed)
            &&& parts.len() == 3 && !readable(2) ==> r == Err::<ClaimsV, TokenError>(TokenError::BadEncoding)
            &&& parts.len() == 3 && readable(2) && !signature_holds(key, token) <==> r == Err::<ClaimsV, TokenError>(
                TokenError::BadSignature,
            )
            &&& signature_holds(key, token) && !readable(1) ==> r == Err::<ClaimsV, TokenError>(
                TokenError::BadEncoding,
            )
            &&& signature_holds(key, token) && readable(1) && (forall|c: ClaimsV| !#[trigger] claims_say(token, c))
                ==> r == Err::<ClaimsV, TokenError>(TokenError::BadClaims)
            &&& forall|c: ClaimsV|
                signature_holds(key, token) && #[trigger] claims_say(token, c) && c.iss != issuer ==> r == Err::<
                    ClaimsV,
                    TokenError,
                >(TokenError::BadIssuer)
        }),
{
    let parts = text::split(token, '.');
    let r = tokens::verified(key, issuer, token, now);
    if parts.len() == 3 {
        if exists|b: Seq<u8>| #[trigger] encoding::base64(b, true) == parts[2] {
            let sig = encoding::base64_bytes(parts[2], true)->0;
            assert(encoding::base64(sig, true) == parts[2]);
            if signature_holds(key, token) {
                let other = choose|other: Seq<u8>|
                    #[trigger] encoding::base64(other, true) == parts[2] && crypto::rs256_valid(
                        key.pem,
                        encode_utf8(parts[0] + "."@ + parts[1]),
                        other,
                    );
                encoding::base64_round_trip(other, true);
                encoding::base64_round_trip(sig, true);
                match tokens::claims_in(tokens::part_json(token, 1)) {
                    Some(c) => {
                        assert(claims_say(token, c));
                    },
                    None => {},
                }
            }
        }
    }
}

/// A token that another key signed is refused, and so is one that another issuer made.
pub proof fn what_is_refused(key: KeyV, issuer: Seq<char>, token: Seq<char>, now: u64)
    ensures
        !signature_holds(key, token) ==> tokens::verified(key, issuer, token, now) is Err,
        tokens::part_json(token, 1) matches Some(v) && json::member_str(v, "iss"@) != Some(issuer)
            ==> tokens::verified(key, issuer, token, now) is Err,
        tokens::part_json(token, 1) is None ==> tokens::verified(key, issuer, token, now) is Err,
{
    if tokens::verified(key, issuer, token, now) is Ok {
        what_acceptance_means(key, issuer, token, now, tokens::verified(key, issuer, token, now)->Ok_0);
    }
}

} // verus!
