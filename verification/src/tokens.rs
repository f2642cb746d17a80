//! Signed tokens: minting of access and identity tokens (RS256) and their verification.

use crate::crypto;
use crate::crypto::{KeyV, SigningKey};
use crate::encoding;
use crate::json;
use crate::json::JsonV;
use crate::rows::{User, UserV};
use crate::text;
use serde_json::Value;
use vstd::prelude::*;
use vstd::string::*;
use vstd::utf8::*;

verus! {

/// What a token says of whom.
#[derive(Debug)]
pub struct Claims {
    pub iss: String,
    pub sub: String,
    pub aud: String,
    pub exp: u64,
    pub iat: u64,
    pub nonce: Option<String>,
    pub email: Option<String>,
    pub name: Option<String>,
}

/// What claims hold.
#[verifier::ext_equal]
pub struct ClaimsV {
    pub iss: Seq<char>,
    pub sub: Seq<char>,
    pub aud: Seq<char>,
    pub exp: u64,
    pub iat: u64,
    pub nonce: Option<Seq<char>>,
    pub email: Option<Seq<char>>,
    pub name: Option<Seq<char>>,
}

impl View for Claims {
    type V = ClaimsV;

    open spec fn view(&self) -> ClaimsV {
        ClaimsV {
            iss: self.iss@,
            sub: self.sub@,
            aud: self.aud@,
            exp: self.exp,
            iat: self.iat,
            nonce: text::opt_view(self.nonce),
            email: text::opt_view(self.email),
            name: text::opt_view(self.name),
        }
    }
}

/// Why a token cannot be minted or is refused.
#[derive(Clone, Copy, Debug, PartialEq, Eq, Structural)]
pub enum TokenError {
    /// The token would expire beyond the largest time.
    LifetimeTooLong,
    /// The key cannot sign.
    SigningFailed,
    /// The token has not three parts.
    Malformed,
    /// A part is not base64 for URLs.
    BadEncoding,
    /// The signature is not one of the key.
    BadSignature,
    /// The payload holds no claims.
    BadClaims,
    /// Another issuer made the token.
    BadIssuer,
    /// The token has expired.
    Expired,
}

// ---------------------------------------------------------------------------------------------
// The clock
// ---------------------------------------------------------------------------------------------

/// The whole seconds that have passed since the start of 1970: `SystemTime::elapsed` of
/// `UNIX_EPOCH`, or nothing where the clock stands before it. Nothing is stated of the number, which
/// depends on the clock.
#[verifier::external_body]
fn since_epoch() -> (r: Option<u64>) {
    std::time::UNIX_EPOCH.elapsed().ok().map(|d| d.as_secs())
}

/// A reading of the clock as a time: a clock that stands before the start of 1970 counts as zero.
pub open spec fn epoch_of(reading: Option<u64>) -> u64 {
    match reading {
        Some(s) => s,
        None => 0,
    }
}

/// Later readings give later times, and a clock before the start of 1970 the earliest.
pub proof fn readings_keep_order(earlier: u64, later: u64)
    requires
        earlier <= later,
    ensures
        epoch_of(None) <= epoch_of(Some(earlier)) <= epoch_of(Some(later)),
{
}

/// A reading of the clock as a time: a clock that stands before the start of 1970 counts as zero.
pub fn epoch_or_zero(reading: Option<u64>) -> (r: u64)
    ensures
        r == epoch_of(reading),
{
    match reading {
        Some(s) => s,
        None => 0,
    }
}

/// The current time in seconds since the start of 1970: a reading of the clock, of which nothing is
/// stated, as a time.
pub fn now_epoch() -> (r: u64)
    ensures
        exists|reading: Option<u64>| r == #[trigger] epoch_of(reading),
{
    let reading: Option<u64> = since_epoch();
    let r: u64 = epoch_or_zero(reading);
    assert(r == epoch_of(reading));
    r
}

// ---------------------------------------------------------------------------------------------
// The form of a token
// ---------------------------------------------------------------------------------------------

/// The header of a token.
pub open spec fn header_view(kid: Seq<char>) -> JsonV {
    json::object(header_members(kid))
}

/// The members of the header of a token.
pub open spec fn header_members(kid: Seq<char>) -> Seq<(Seq<char>, JsonV)> {
    seq![("alg"@, JsonV::Str("RS256"@)), ("typ"@, JsonV::Str("JWT"@)), ("kid"@, JsonV::Str(kid))]
}

fn json_header(kid: &str) -> (r: Value)
    ensures
        json::json_view(r) == header_view(kid@),
{
    let mut p: Vec<(String, Value)> = Vec::new();
    p.push(("alg".to_owned(), json::json_str("RS256".to_owned())));
    p.push(("typ".to_owned(), json::json_str("JWT".to_owned())));
    p.push(("kid".to_owned(), json::json_str(kid.to_owned())));
    assert(json::pair_views(p@) =~= header_members(kid@));
    json::json_object(p)
}

/// The part of a token that holds a JSON value: its text, in base64 for URLs.
pub open spec fn part(v: JsonV) -> Seq<char> {
    encoding::base64(encode_utf8(json::json_text(v)), true)
}

/// An object that is read back as it was written.
pub open spec fn plain_object(v: JsonV) -> bool {
    json::flat(v) && json::member(v, json::RAW_KEY@) is None
}

fn b64url_json(v: &Value) -> (r: String)
    ensures
        r@ == part(json::json_view(*v)),
        plain_object(json::json_view(*v)) ==> json::json_parsed(
            encode_utf8(json::json_text(json::json_view(*v))),
        ) == Some(json::json_view(*v)),
{
    let s: String = json::json_to_text(v);
    encoding::b64url(s.as_str().as_bytes())
}

/// What is signed: the header and the claims, with a dot between them.
pub open spec fn signing_input(kid: Seq<char>, claims: JsonV) -> Seq<char> {
    part(header_view(kid)) + "."@ + part(claims)
}

/// The signed token with these claims, where the key can sign.
pub open spec fn signed(key: KeyV, claims: JsonV) -> Option<Seq<char>> {
    match crypto::rs256_signature(key.pem, encode_utf8(signing_input(key.kid, claims))) {
        Some(sig) => Some(signing_input(key.kid, claims) + "."@ + encoding::base64(sig, true)),
        None => None,
    }
}

/// The JSON in a part of a token, where the token has three parts and this one holds JSON.
pub open spec fn part_json(token: Seq<char>, i: int) -> Option<JsonV> {
    let parts = text::split(token, '.');
    if parts.len() != 3 {
        None
    } else {
        match encoding::base64_bytes(parts[i], true) {
            Some(b) => json::json_parsed(b),
            None => None,
        }
    }
}

/// Whether a part of a token holds this text under this name.
pub open spec fn part_says(token: Seq<char>, i: int, key: Seq<char>, value: Seq<char>) -> bool {
    part_json(token, i) matches Some(v) && json::member(v, key) == Some(JsonV::Str(value))
}

/// Whether the claims of a token hold this number under this name.
pub open spec fn claims_count(token: Seq<char>, key: Seq<char>, n: u64) -> bool {
    part_json(token, 1) matches Some(v) && json::member(v, key) == Some(JsonV::Num(n))
}

/// What `verify` makes of a token.
pub open spec fn verified(key: KeyV, issuer: Seq<char>, token: Seq<char>, now: u64) -> Result<ClaimsV, TokenError> {
    let parts = text::split(token, '.');
    if parts.len() != 3 {
        Err(TokenError::Malformed)
    } else {
        match encoding::base64_bytes(parts[2], true) {
            None => Err(TokenError::BadEncoding),
            Some(sig) => if !crypto::rs256_valid(key.pem, encode_utf8(parts[0] + "."@ + parts[1]), sig) {
                Err(TokenError::BadSignature)
            } else {
                match encoding::base64_bytes(parts[1], true) {
                    None => Err(TokenError::BadEncoding),
                    Some(payload) => accepted(payload, issuer, now),
                }
            },
        }
    }
}

/// What is made of the payload of a token whose signature is good.
pub open spec fn accepted(payload: Seq<u8>, issuer: Seq<char>, now: u64) -> Result<ClaimsV, TokenError> {
    judged(claims_in(json::json_parsed(payload)), issuer, now)
}

/// What is made of the claims of a token whose signature is good: the issuer must be the expected
/// one, and the last second of the token must not have passed.
pub open spec fn judged(claims: Option<ClaimsV>, issuer: Seq<char>, now: u64) -> Result<ClaimsV, TokenError> {
    match claims {
        None => Err(TokenError::BadClaims),
        Some(c) => if c.iss != issuer {
            Err(TokenError::BadIssuer)
        } else if c.exp < now {
            Err(TokenError::Expired)
        } else {
            Ok(c)
        },
    }
}

/// What a result of `verify` holds.
pub open spec fn result_view(r: Result<Claims, TokenError>) -> Result<ClaimsV, TokenError> {
    match r {
        Ok(c) => Ok(c@),
        Err(e) => Err(e),
    }
}

/// An optional text among the members of an object: missing, null or a string.
pub open spec fn optional_text(v: JsonV, key: Seq<char>) -> Option<Option<Seq<char>>> {
    match json::member(v, key) {
        None => Some(None),
        Some(JsonV::Null) => Some(None),
        Some(JsonV::Str(s)) => Some(Some(s)),
        _ => None,
    }
}

/// The claims that a JSON object holds.
pub open spec fn claims_of(v: JsonV) -> Option<ClaimsV> {
    match (
        json::member_str(v, "iss"@),
        json::member_str(v, "sub"@),
        json::member_str(v, "aud"@),
        json::member_num(v, "exp"@),
        json::member_num(v, "iat"@),
        optional_text(v, "nonce"@),
        optional_text(v, "email"@),
        optional_text(v, "name"@),
    ) {
        (Some(iss), Some(sub), Some(aud), Some(exp), Some(iat), Some(nonce), Some(email), Some(name)) => Some(
            ClaimsV { iss, sub, aud, exp, iat, nonce, email, name },
        ),
        _ => None,
    }
}

/// The claims that a payload holds, where it is JSON at all.
pub open spec fn claims_in(v: Option<JsonV>) -> Option<ClaimsV> {
    match v {
        Some(v) => claims_of(v),
        None => None,
    }
}

// ---------------------------------------------------------------------------------------------
// Verification
// ---------------------------------------------------------------------------------------------

fn get_optional(v: &Value, key: &str) -> (r: Option<Option<String>>)
    ensures
        match r {
            Some(o) => optional_text(json::json_view(*v), key@) == Some(text::opt_view(o)),
            None => optional_text(json::json_view(*v), key@) is None,
        },
{
    match json::json_get(v, key) {
        None => Some(None),
        Some(x) => match x.as_str() {
            Some(s) => Some(Some(s.to_owned())),
            None => if json::json_is_null(x) {
                Some(None)
            } else {
                None
            },
        },
    }
}

/// The claims that a JSON value holds.
pub fn read_claims(v: &Value) -> (r: Option<Claims>)
    ensures
        match r {
            Some(c) => claims_of(json::json_view(*v)) == Some(c@),
            None => claims_of(json::json_view(*v)) is None,
        },
{
    match (
        json::get_str(v, "iss"),
        json::get_str(v, "sub"),
        json::get_str(v, "aud"),
        json::get_num(v, "exp"),
        json::get_num(v, "iat"),
        get_optional(v, "nonce"),
        get_optional(v, "email"),
        get_optional(v, "name"),
    ) {
        (Some(iss), Some(sub), Some(aud), Some(exp), Some(iat), Some(nonce), Some(email), Some(name)) => Some(
            Claims { iss, sub, aud, exp, iat, nonce, email, name },
        ),
        _ => None,
    }
}

/// Takes the claims of a payload whose signature is good, if the issuer is the expected one and the
/// token has not expired.
pub fn check_claims(payload: Option<Value>, issuer: &str, now: u64) -> (r: Result<Claims, TokenError>)
    ensures
        result_view(r) == judged(claims_in(json::opt_view(payload)), issuer@, now),
{
    match payload {
        None => Err(TokenError::BadClaims),
        Some(v) => match read_claims(&v) {
            None => Err(TokenError::BadClaims),
            Some(c) => if !text::same(c.iss.as_str(), issuer) {
                Err(TokenError::BadIssuer)
            } else if c.exp < now {
                Err(TokenError::Expired)
            } else {
                Ok(c)
            },
        },
    }
}

/// Verifies a token at a point in time: a token of three parts, signed with the key, that the issuer
/// made and that has not expired.
pub fn verify_at(key: &SigningKey, issuer: &str, token: &str, now: u64) -> (r: Result<Claims, TokenError>)
    ensures
        result_view(r) == verified(key@, issuer@, token@, now),
{
    let parts: Vec<String> = text::split_on(token, '.');
    proof {
        assert(text::list_view(parts@).len() == parts@.len());
    }
    if parts.len() != 3 {
        return Err(TokenError::Malformed);
    }
    proof {
        assert(text::list_view(parts@)[0] == parts@[0]@);
        assert(text::list_view(parts@)[1] == parts@[1]@);
        assert(text::list_view(parts@)[2] == parts@[2]@);
    }
    match encoding::b64url_decode(parts[2].as_str()) {
        None => Err(TokenError::BadEncoding),
        Some(sig) => {
            proof {
                encoding::base64_round_trip(sig@, true);
            }
            let mut input: String = parts[0].clone();
            input.append(".");
            input.append(parts[1].as_str());
            if !key.verify_rs256(input.as_str().as_bytes(), sig.as_slice()) {
                return Err(TokenError::BadSignature);
            }
            match encoding::b64url_decode(parts[1].as_str()) {
                None => Err(TokenError::BadEncoding),
                Some(payload) => {
                    proof {
                        encoding::base64_round_trip(payload@, true);
                    }
                    check_claims(json::json_of_bytes(payload.as_slice()), issuer, now)
                },
            }
        },
    }
}

/// Verifies a token now.
pub fn verify(key: &SigningKey, issuer: &str, token: &str) -> (r: Result<Claims, TokenError>)
    ensures
        exists|now: u64| result_view(r) == #[trigger] verified(key@, issuer@, token@, now),
{
    let now: u64 = now_epoch();
    verify_at(key, issuer, token, now)
}

// ---------------------------------------------------------------------------------------------
// Minting
// ---------------------------------------------------------------------------------------------

/// Three parts without dots, with dots between them, are the parts of the whole.
pub proof fn three_parts(a: Seq<char>, b: Seq<char>, c: Seq<char>)
    requires
        !a.contains('.'),
        !b.contains('.'),
        !c.contains('.'),
    ensures
        text::split(a + "."@ + b + "."@ + c, '.') == seq![a, b, c],
{
    reveal_strlit(".");
    assert("."@ =~= seq!['.']);
    text::split_front(a, '.', b + seq!['.'] + c);
    text::split_front(b, '.', c);
    text::split_whole(c, '.');
    assert(a + "."@ + b + "."@ + c =~= a + seq!['.'] + (b + seq!['.'] + c));
    assert(seq![a] + (seq![b] + seq![c]) =~= seq![a, b, c]);
}

/// Base64 for URLs holds no dot.
pub proof fn base64_has_no_dot(b: Seq<u8>)
    ensures
        !encoding::base64(b, true).contains('.'),
{
    encoding::b64url_is_plain(b);
}

/// The header of a token is read back as it was written.
pub proof fn header_read(kid: Seq<char>)
    ensures
        plain_object(header_view(kid)),
        json::member(header_view(kid), "alg"@) == Some(JsonV::Str("RS256"@)),
        json::member(header_view(kid), "typ"@) == Some(JsonV::Str("JWT"@)),
        json::member(header_view(kid), "kid"@) == Some(JsonV::Str(kid)),
{
    let p = header_members(kid);
    reveal_strlit("$serde_json::private::RawValue");
    reveal_strlit("alg");
    reveal_strlit("typ");
    reveal_strlit("kid");
    assert(json::RAW_KEY@.len() == 30);
    assert("alg"@.len() == 3 && "alg"@[0] == 'a');
    assert("typ"@.len() == 3 && "typ"@[0] == 't');
    assert("kid"@.len() == 3 && "kid"@[0] == 'k');
    json::object_of_scalars(p);
    json::member_of_no_pair(p, json::RAW_KEY@);
    json::member_of_pair(p, 0);
    json::member_of_pair(p, 1);
    json::member_of_pair(p, 2);
}

/// Signs claims. The token that comes out is accepted by its key, as far as its claims are.
fn sign_claims(key: &SigningKey, claims: &Value) -> (r: Option<String>)
    ensures
        text::opt_view(r) == signed(key@, json::json_view(*claims)),
        r is Some && plain_object(json::json_view(*claims)) ==> forall|issuer: Seq<char>, now: u64|
            #[trigger] verified(key@, issuer, r->0@, now) == judged(
                claims_of(json::json_view(*claims)),
                issuer,
                now,
            ),
        r is Some && plain_object(json::json_view(*claims)) ==> part_json(r->0@, 1) == Some(
            json::json_view(*claims),
        ),
        r is Some ==> part_says(r->0@, 0, "alg"@, "RS256"@) && part_says(r->0@, 0, "typ"@, "JWT"@) && part_says(
            r->0@,
            0,
            "kid"@,
            key@.kid,
        ),
{
    let header: Value = json_header(key.kid());
    let mut token: String = b64url_json(&header);
    token.append(".");
    let body: String = b64url_json(claims);
    token.append(body.as_str());
    match key.sign_rs256(token.as_str().as_bytes()) {
        Some(sig) => {
            let ghost input = token@;
            token.append(".");
            let tail: String = encoding::b64url(sig.as_slice());
            token.append(tail.as_str());
            proof {
                let h = part(header_view(key@.kid));
                let payload = encode_utf8(json::json_text(json::json_view(*claims)));
                let p = part(json::json_view(*claims));
                let s = encoding::base64(sig@, true);
                assert(token@ == h + "."@ + p + "."@ + s);
                base64_has_no_dot(encode_utf8(json::json_text(header_view(key@.kid))));
                base64_has_no_dot(payload);
                base64_has_no_dot(sig@);
                three_parts(h, p, s);
                encoding::base64_round_trip(sig@, true);
                encoding::base64_round_trip(payload, true);
                encoding::base64_round_trip(encode_utf8(json::json_text(header_view(key@.kid))), true);
                header_read(key@.kid);
            }
            Some(token)
        },
        None => None,
    }
}

/// The members of the claims of an access token.
pub open spec fn access_members(
    issuer: Seq<char>,
    user: UserV,
    client_id: Seq<char>,
    scope: Seq<char>,
    exp: u64,
    iat: u64,
) -> Seq<(Seq<char>, JsonV)> {
    seq![
        ("iss"@, JsonV::Str(issuer)),
        ("sub"@, JsonV::Str(user.id)),
        ("aud"@, JsonV::Str(client_id)),
        ("exp"@, JsonV::Num(exp)),
        ("iat"@, JsonV::Num(iat)),
        ("scope"@, JsonV::Str(scope)),
        ("email"@, JsonV::Str(user.email)),
        ("name"@, JsonV::Str(user.name)),
    ]
}

/// The members of the claims of an identity token.
pub open spec fn id_members(
    issuer: Seq<char>,
    user: UserV,
    client_id: Seq<char>,
    nonce: Option<Seq<char>>,
    exp: u64,
    iat: u64,
) -> Seq<(Seq<char>, JsonV)> {
    seq![
        ("iss"@, JsonV::Str(issuer)),
        ("sub"@, JsonV::Str(user.id)),
        ("aud"@, JsonV::Str(client_id)),
        ("exp"@, JsonV::Num(exp)),
        ("iat"@, JsonV::Num(iat)),
        ("nonce"@, match nonce {
            Some(n) => JsonV::Str(n),
            None => JsonV::Null,
        }),
        ("email"@, JsonV::Str(user.email)),
        ("name"@, JsonV::Str(user.name)),
    ]
}

/// What a token says of a person.
pub open spec fn claims_about(
    issuer: Seq<char>,
    user: UserV,
    client_id: Seq<char>,
    nonce: Option<Seq<char>>,
    exp: u64,
    iat: u64,
) -> ClaimsV {
    ClaimsV {
        iss: issuer,
        sub: user.id,
        aud: client_id,
        exp,
        iat,
        nonce,
        email: Some(user.email),
        name: Some(user.name),
    }
}

/// No two of the names of the claims are the same.
pub proof fn claim_names_differ()
    ensures
        "iss"@ != "sub"@,
        "iss"@ != "aud"@,
        "iss"@ != "exp"@,
        "iss"@ != "iat"@,
        "iss"@ != "nonce"@,
        "iss"@ != "email"@,
        "iss"@ != "name"@,
        "iss"@ != "scope"@,
        "sub"@ != "aud"@,
        "sub"@ != "exp"@,
        "sub"@ != "iat"@,
        "sub"@ != "nonce"@,
        "sub"@ != "email"@,
        "sub"@ != "name"@,
        "sub"@ != "scope"@,
        "aud"@ != "exp"@,
        "aud"@ != "iat"@,
        "aud"@ != "nonce"@,
        "aud"@ != "email"@,
        "aud"@ != "name"@,
        "aud"@ != "scope"@,
        "exp"@ != "iat"@,
        "exp"@ != "nonce"@,
        "exp"@ != "email"@,
        "exp"@ != "name"@,
        "exp"@ != "scope"@,
        "iat"@ != "nonce"@ && "iat"@ != "email"@ && "iat"@ != "name"@ && "iat"@ != "scope"@,
        "nonce"@ != "email"@ && "nonce"@ != "name"@ && "nonce"@ != "scope"@,
        "email"@ != "name"@ && "email"@ != "scope"@,
        "name"@ != "scope"@,
        json::RAW_KEY@ != "iss"@ && json::RAW_KEY@ != "sub"@ && json::RAW_KEY@ != "aud"@,
        json::RAW_KEY@ != "exp"@ && json::RAW_KEY@ != "iat"@ && json::RAW_KEY@ != "nonce"@,
        json::RAW_KEY@ != "email"@ && json::RAW_KEY@ != "name"@ && json::RAW_KEY@ != "scope"@,
{
    reveal_strlit("$serde_json::private::RawValue");
    assert(json::RAW_KEY@.len() == 30);
    reveal_strlit("iss");
    reveal_strlit("sub");
    reveal_strlit("aud");
    reveal_strlit("exp");
    reveal_strlit("iat");
    reveal_strlit("nonce");
    reveal_strlit("email");
    reveal_strlit("name");
    reveal_strlit("scope");
    assert("iss"@.len() == 3);
    assert("sub"@.len() == 3);
    assert("aud"@.len() == 3);
    assert("exp"@.len() == 3);
    assert("iat"@.len() == 3);
    assert("nonce"@.len() == 5);
    assert("email"@.len() == 5);
    assert("name"@.len() == 4);
    assert("scope"@.len() == 5);
    assert("iss"@[0] == 'i' && "iss"@[1] == 's');
    assert("sub"@[0] == 's');
    assert("aud"@[0] == 'a');
    assert("exp"@[0] == 'e');
    assert("iat"@[0] == 'i' && "iat"@[1] == 'a');
    assert("nonce"@[0] == 'n');
    assert("email"@[0] == 'e');
    assert("scope"@[0] == 's');
}

/// The claims of an access token are read back as they were written.
pub proof fn access_claims_read(
    issuer: Seq<char>,
    user: UserV,
    client_id: Seq<char>,
    scope: Seq<char>,
    exp: u64,
    iat: u64,
)
    ensures
        plain_object(json::object(access_members(issuer, user, client_id, scope, exp, iat))),
        claims_of(json::object(access_members(issuer, user, client_id, scope, exp, iat))) == Some(
            claims_about(issuer, user, client_id, None, exp, iat),
        ),
        json::member(json::object(access_members(issuer, user, client_id, scope, exp, iat)), "scope"@) == Some(
            JsonV::Str(scope),
        ),
{
    let p = access_members(issuer, user, client_id, scope, exp, iat);
    claim_names_differ();
    json::object_of_scalars(p);
    json::member_of_no_pair(p, json::RAW_KEY@);
    json::member_of_pair(p, 0);
    json::member_of_pair(p, 1);
    json::member_of_pair(p, 2);
    json::member_of_pair(p, 3);
    json::member_of_pair(p, 4);
    json::member_of_pair(p, 5);
    json::member_of_pair(p, 6);
    json::member_of_pair(p, 7);
    json::member_of_no_pair(p, "nonce"@);
}

/// The claims of an identity token are read back as they were written.
pub proof fn id_claims_read(
    issuer: Seq<char>,
    user: UserV,
    client_id: Seq<char>,
    nonce: Option<Seq<char>>,
    exp: u64,
    iat: u64,
)
    ensures
        plain_object(json::object(id_members(issuer, user, client_id, nonce, exp, iat))),
        claims_of(json::object(id_members(issuer, user, client_id, nonce, exp, iat))) == Some(
            claims_about(issuer, user, client_id, nonce, exp, iat),
        ),
{
    let p = id_members(issuer, user, client_id, nonce, exp, iat);
    claim_names_differ();
    json::object_of_scalars(p);
    json::member_of_no_pair(p, json::RAW_KEY@);
    json::member_of_pair(p, 0);
    json::member_of_pair(p, 1);
    json::member_of_pair(p, 2);
    json::member_of_pair(p, 3);
    json::member_of_pair(p, 4);
    json::member_of_pair(p, 5);
    json::member_of_pair(p, 6);
    json::member_of_pair(p, 7);
}

/// The access token for a person and a client, and its last second.
pub open spec fn access_token(
    key: KeyV,
    issuer: Seq<char>,
    user: UserV,
    client_id: Seq<char>,
    scope: Seq<char>,
    ttl: u64,
    now: u64,
) -> Result<(Seq<char>, u64), TokenError> {
    if now + ttl > u64::MAX {
        Err(TokenError::LifetimeTooLong)
    } else {
        let exp = (now + ttl) as u64;
        match signed(key, json::object(access_members(issuer, user, client_id, scope, exp, now))) {
            Some(t) => Ok((t, exp)),
            None => Err(TokenError::SigningFailed),
        }
    }
}

/// The identity token for a person and a client.
pub open spec fn id_token(
    key: KeyV,
    issuer: Seq<char>,
    user: UserV,
    client_id: Seq<char>,
    nonce: Option<Seq<char>>,
    ttl: u64,
    now: u64,
) -> Result<Seq<char>, TokenError> {
    if now + ttl > u64::MAX {
        Err(TokenError::LifetimeTooLong)
    } else {
        let exp = (now + ttl) as u64;
        match signed(key, json::object(id_members(issuer, user, client_id, nonce, exp, now))) {
            Some(t) => Ok(t),
            None => Err(TokenError::SigningFailed),
        }
    }
}

/// Mints the access token for a person and a client at a point in time. `verify` accepts the token up
/// to its last second, and gives back what was minted.
pub fn mint_access_token_at(
    key: &SigningKey,
    issuer: &str,
    user: &User,
    client_id: &str,
    scope: &str,
    ttl_secs: u64,
    now: u64,
) -> (r: Result<(String, u64), TokenError>)
    ensures
        match access_token(key@, issuer@, user@, client_id@, scope@, ttl_secs, now) {
            Ok(t) => r is Ok && r->Ok_0.0@ == t.0 && r->Ok_0.1 == t.1,
            Err(e) => r == Err::<(String, u64), TokenError>(e),
        },
        r is Ok ==> forall|at: u64|
            #[trigger] verified(key@, issuer@, r->Ok_0.0@, at) == if at <= r->Ok_0.1 {
                Ok(claims_about(issuer@, user@, client_id@, None, r->Ok_0.1, now))
            } else {
                Err::<ClaimsV, TokenError>(TokenError::Expired)
            },
        r matches Ok(t) ==> {
            &&& t.1 == now + ttl_secs
            &&& part_says(t.0@, 0, "alg"@, "RS256"@)
            &&& part_says(t.0@, 0, "kid"@, key@.kid)
            &&& part_says(t.0@, 1, "iss"@, issuer@)
            &&& part_says(t.0@, 1, "sub"@, user@.id)
            &&& part_says(t.0@, 1, "aud"@, client_id@)
            &&& part_says(t.0@, 1, "scope"@, scope@)
            &&& part_says(t.0@, 1, "email"@, user@.email)
            &&& part_says(t.0@, 1, "name"@, user@.name)
            &&& claims_count(t.0@, "exp"@, t.1)
            &&& claims_count(t.0@, "iat"@, now)
        },
{
    let exp: u64 = match now.checked_add(ttl_secs) {
        Some(t) => t,
        None => {
            return Err(TokenError::LifetimeTooLong);
        },
    };
    let mut p: Vec<(String, Value)> = Vec::new();
    p.push(("iss".to_owned(), json::json_str(issuer.to_owned())));
    p.push(("sub".to_owned(), json::json_str(user.id.clone())));
    p.push(("aud".to_owned(), json::json_str(client_id.to_owned())));
    p.push(("exp".to_owned(), json::json_num(exp)));
    p.push(("iat".to_owned(), json::json_num(now)));
    p.push(("scope".to_owned(), json::json_str(scope.to_owned())));
    p.push(("email".to_owned(), json::json_str(user.email.clone())));
    p.push(("name".to_owned(), json::json_str(user.name.clone())));
    proof {
        assert(json::pair_views(p@) =~= access_members(issuer@, user@, client_id@, scope@, exp, now));
        access_claims_read(issuer@, user@, client_id@, scope@, exp, now);
    }
    let claims: Value = json::json_object(p);
    match sign_claims(key, &claims) {
        Some(token) => Ok((token, exp)),
        None => Err(TokenError::SigningFailed),
    }
}

/// Mints the identity token for a person and a client at a point in time. `verify` accepts the token up
/// to its last second, and gives back what was minted.
pub fn mint_id_token_at(
    key: &SigningKey,
    issuer: &str,
    user: &User,
    client_id: &str,
    nonce: &Option<String>,
    ttl_secs: u64,
    now: u64,
) -> (r: Result<String, TokenError>)
    ensures
        match id_token(key@, issuer@, user@, client_id@, text::opt_view(*nonce), ttl_secs, now) {
            Ok(t) => r is Ok && r->Ok_0@ == t,
            Err(e) => r == Err::<String, TokenError>(e),
        },
        r is Ok ==> forall|at: u64|
            #[trigger] verified(key@, issuer@, r->Ok_0@, at) == if at <= now + ttl_secs {
                Ok(
                    claims_about(
                        issuer@,
                        user@,
                        client_id@,
                        text::opt_view(*nonce),
                        (now + ttl_secs) as u64,
                        now,
                    ),
                )
            } else {
                Err::<ClaimsV, TokenError>(TokenError::Expired)
            },
        r matches Ok(t) ==> {
            &&& part_says(t@, 0, "alg"@, "RS256"@)
            &&& part_says(t@, 0, "kid"@, key@.kid)
            &&& part_says(t@, 1, "iss"@, issuer@)
            &&& part_says(t@, 1, "sub"@, user@.id)
            &&& part_says(t@, 1, "aud"@, client_id@)
            &&& *nonce matches Some(n) ==> part_says(t@, 1, "nonce"@, n@)
            &&& part_says(t@, 1, "email"@, user@.email)
            &&& part_says(t@, 1, "name"@, user@.name)
            &&& now + ttl_secs <= u64::MAX
            &&& claims_count(t@, "exp"@, (now + ttl_secs) as u64)
            &&& claims_count(t@, "iat"@, now)
        },
{
    let exp: u64 = match now.checked_add(ttl_secs) {
        Some(t) => t,
        None => {
            return Err(TokenError::LifetimeTooLong);
        },
    };
    let mut p: Vec<(String, Value)> = Vec::new();
    p.push(("iss".to_owned(), json::json_str(issuer.to_owned())));
    p.push(("sub".to_owned(), json::json_str(user.id.clone())));
    p.push(("aud".to_owned(), json::json_str(client_id.to_owned())));
    p.push(("exp".to_owned(), json::json_num(exp)));
    p.push(("iat".to_owned(), json::json_num(now)));
    p.push(
        (
            "nonce".to_owned(),
            match nonce {
                Some(n) => json::json_str(n.clone()),
                None => json::json_null(),
            },
        ),
    );
    p.push(("email".to_owned(), json::json_str(user.email.clone())));
    p.push(("name".to_owned(), json::json_str(user.name.clone())));
    proof {
        assert(json::pair_views(p@) =~= id_members(issuer@, user@, client_id@, text::opt_view(*nonce), exp, now));
        id_claims_read(issuer@, user@, client_id@, text::opt_view(*nonce), exp, now);
    }
    let claims: Value = json::json_object(p);
    match sign_claims(key, &claims) {
        Some(token) => Ok(token),
        None => Err(TokenError::SigningFailed),
    }
}

/// Mints the access token for a person and a client now.
pub fn mint_access_token(
    key: &SigningKey,
    issuer: &str,
    user: &User,
    client_id: &str,
    scope: &str,
    ttl_secs: u64,
) -> (r: Result<(String, u64), TokenError>)
    ensures
        exists|now: u64|
            match #[trigger] access_token(key@, issuer@, user@, client_id@, scope@, ttl_secs, now) {
                Ok(t) => r is Ok && r->Ok_0.0@ == t.0 && r->Ok_0.1 == t.1,
                Err(e) => r == Err::<(String, u64), TokenError>(e),
            },
{
    let now: u64 = now_epoch();
    mint_access_token_at(key, issuer, user, client_id, scope, ttl_secs, now)
}

/// Mints the identity token for a person and a client now.
pub fn mint_id_token(
    key: &SigningKey,
    issuer: &str,
    user: &User,
    client_id: &str,
    nonce: &Option<String>,
    ttl_secs: u64,
) -> (r: Result<String, TokenError>)
    ensures
        exists|now: u64|
            match #[trigger] id_token(
                key@,
                issuer@,
                user@,
                client_id@,
                text::opt_view(*nonce),
                ttl_secs,
                now,
            ) {
                Ok(t) => r is Ok && r->Ok_0@ == t,
                Err(e) => r == Err::<String, TokenError>(e),
            },
{
    let now: u64 = now_epoch();
    mint_id_token_at(key, issuer, user, client_id, nonce, ttl_secs, now)
}

} // verus!
