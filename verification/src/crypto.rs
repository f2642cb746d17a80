//! Argon2id password hashes, random tokens, RS256 signing keys and their JWKS form.

use crate::encoding;
pub use crate::encoding::b64url;
use crate::json;
use crate::text;
use argon2::password_hash::rand_core::OsRng;
use argon2::password_hash::{PasswordHash, PasswordHasher, PasswordVerifier, SaltString};
use argon2::Argon2;
use rand::RngCore;
use rsa::pkcs1v15::Signature;
use rsa::pkcs8::{DecodePrivateKey, EncodePrivateKey, EncodePublicKey, LineEnding};
use rsa::signature::{SignatureEncoding, Signer, Verifier};
use rsa::traits::{PrivateKeyParts, PublicKeyParts};
use rsa::{RsaPrivateKey, RsaPublicKey};
use serde_json::Value;
use sha2::{Digest, Sha256};
use vstd::prelude::*;
use vstd::string::*;
use vstd::utf8::*;

verus! {

// ---------------------------------------------------------------------------------------------
// Passwords
// ---------------------------------------------------------------------------------------------

/// Whether a password is the one that an Argon2 hash text was made from, as `argon2` decides it: not
/// where the text is no password hash.
pub uninterp spec fn argon2_matches(password: Seq<char>, hash: Seq<char>) -> bool;

/// Whether a parameter of a hash text, where it is the degree of parallelism, has at most eight digits.
/// `argon2` takes none above 16777215.
pub open spec fn small_parameter(param: Seq<char>) -> bool {
    text::has_prefix(param, "p="@) ==> param.len() <= 10
}

/// Whether all parameters in a field of a hash text are small.
pub open spec fn small_field(field: Seq<char>) -> bool {
    forall|i: int| 0 <= i < text::split(field, ',').len() ==> small_parameter(#[trigger] text::split(field, ',')[i])
}

/// Whether no degree of parallelism in a hash text has more than eight digits.
pub open spec fn small_parallelism(hash: Seq<char>) -> bool {
    forall|i: int| 0 <= i < text::split(hash, '$').len() ==> small_field(#[trigger] text::split(hash, '$')[i])
}

/// Whether a password is the one that a hash text was made from.
pub open spec fn password_matches(password: Seq<char>, hash: Seq<char>) -> bool {
    small_parallelism(hash) && argon2_matches(password, hash)
}

fn has_small_parameters(field: &str) -> (r: bool)
    ensures
        r == small_field(field@),
{
    let test = |s: &String| -> (b: bool)
        ensures
            b == small_parameter(s@),
    {
        !text::starts_with(s.as_str(), "p=") || s.as_str().unicode_len() <= 10
    };
    text::all_pass(&text::split_on(field, ','), Ghost(|s: Seq<char>| small_parameter(s)), test)
}

fn has_small_parallelism(hash: &str) -> (r: bool)
    ensures
        r == small_parallelism(hash@),
{
    let test = |s: &String| -> (b: bool)
        ensures
            b == small_field(s@),
    {
        has_small_parameters(s.as_str())
    };
    text::all_pass(&text::split_on(hash, '$'), Ghost(|s: Seq<char>| small_field(s)), test)
}

/// How the text of an Argon2id hash begins.
pub const ARGON2ID: &'static str = "$argon2id$";

/// A text in the form of an Argon2id hash, as far as its beginning tells.
pub open spec fn argon2id_text(hash: Seq<char>) -> bool {
    text::has_prefix(hash, ARGON2ID@)
}

/// What `hash_password` may give for a password: nothing, or an Argon2id text that the password matches.
pub open spec fn may_hash(password: Seq<char>, hash: Option<Seq<char>>) -> bool {
    hash matches Some(h) ==> password_matches(password, h) && argon2id_text(h)
}

/// A hash of a password with a fresh random salt: `Argon2::default().hash_password`. The text
/// differs from call to call; what is stated of it is that it begins as an Argon2id hash does, that its
/// degree of parallelism is small, and that the password matches it. It fails on a password of more
/// than `u32::MAX` bytes and on no other.
#[verifier::external_body]
pub fn hash_password(password: &str) -> (r: Option<String>)
    ensures
        encode_utf8(password@).len() <= u32::MAX ==> r is Some,
        may_hash(password@, text::opt_view(r)),
{
    let salt = SaltString::generate(&mut OsRng);
    Argon2::default().hash_password(password.as_bytes(), &salt).ok().map(|h| h.to_string())
}

/// Whether a password matches a hash text: `PasswordHash::new` reads the text, and
/// `Argon2::default().verify_password` hashes the password again with the salt and the parameters
/// found there, in the memory and the time that they ask for, and compares. A text that does not begin
/// with `$` is no hash text, and matches nothing. Before it refuses a degree of parallelism that is too
/// large it multiplies it by eight, so texts with one that may overflow are left out.
#[verifier::external_body]
fn argon2_verify(password: &str, hash: &str) -> (r: bool)
    requires
        small_parallelism(hash@),
    ensures
        r == argon2_matches(password@, hash@),
        r ==> hash@.len() > 0 && hash@[0] == '$',
{
    match PasswordHash::new(hash) {
        Ok(parsed) => Argon2::default().verify_password(password.as_bytes(), &parsed).is_ok(),
        Err(_) => false,
    }
}

/// Whether a password matches a hash text. A text that does not begin with `$` matches nothing. That
/// another password than the hashed one does not match is not stated: it rests on the hash function.
pub fn verify_password(password: &str, hash: &str) -> (r: bool)
    ensures
        r == password_matches(password@, hash@),
        r ==> hash@.len() > 0 && hash@[0] == '$',
{
    has_small_parallelism(hash) && argon2_verify(password, hash)
}

// ---------------------------------------------------------------------------------------------
// Digests and random tokens
// ---------------------------------------------------------------------------------------------

/// The SHA-256 digest of bytes.
pub uninterp spec fn sha256_digest(b: Seq<u8>) -> Seq<u8>;

/// The SHA-256 digest of bytes: `Sha256::digest`, 32 bytes.
#[verifier::external_body]
pub(crate) fn sha256(b: &[u8]) -> (r: Vec<u8>)
    ensures
        r@ == sha256_digest(b@),
        r@.len() == 32,
{
    Sha256::digest(b).to_vec()
}

/// The PKCE S256 challenge of a verifier: the SHA-256 digest of its text, in base64 for URLs.
pub open spec fn challenge_of(verifier: Seq<char>) -> Seq<char> {
    encoding::base64(sha256_digest(encode_utf8(verifier)), true)
}

/// The PKCE S256 challenge of a verifier.
pub fn s256_challenge(verifier: &str) -> (r: String)
    ensures
        r@ == challenge_of(verifier@),
        r@.len() == 43,
{
    let digest: Vec<u8> = sha256(verifier.as_bytes());
    proof {
        encoding::b64url_len(digest@);
    }
    encoding::b64url(digest.as_slice())
}

/// Random bytes: `fill_bytes` of the thread's generator fills the whole buffer.
#[verifier::external_body]
fn random_bytes(n: usize) -> (r: Vec<u8>)
    ensures
        r@.len() == n,
{
    let mut buf = vec![0u8; n];
    rand::thread_rng().fill_bytes(&mut buf);
    buf
}

/// A text that `rand_token` may give for `n` bytes.
pub open spec fn token_text(t: Seq<char>, n: nat) -> bool {
    exists|b: Seq<u8>| b.len() == n && #[trigger] encoding::base64(b, true) == t
}

/// A fresh random token: that many random bytes, in base64 for URLs. Nothing is stated of which bytes
/// they are.
pub fn rand_token(bytes: usize) -> (r: String)
    ensures
        token_text(r@, bytes as nat),
{
    let b: Vec<u8> = random_bytes(bytes);
    encoding::b64url(b.as_slice())
}

// ---------------------------------------------------------------------------------------------
// Signing keys
// ---------------------------------------------------------------------------------------------

/// The public half of the RSA key in a PKCS#8 PEM text, where the text holds one: the DER form of
/// its SubjectPublicKeyInfo, its modulus and its exponent, big-endian.
pub uninterp spec fn rsa_public(pem: Seq<char>) -> Option<(Seq<u8>, Seq<u8>, Seq<u8>)>;

/// How many bits the first and the second prime of the RSA key in a PKCS#8 PEM text have, where the text
/// holds one.
pub uninterp spec fn rsa_prime_bits(pem: Seq<char>) -> Option<(usize, usize)>;

/// By how many bits the second prime of a signing key may be longer than the first.
pub const PRIME_GAP: usize = 40;

/// Whether the second prime of a key is not so much longer than the first that signing would not end.
pub open spec fn can_sign(pem: Seq<char>) -> bool {
    rsa_prime_bits(pem) matches Some(b) && b.1 <= b.0 + PRIME_GAP
}

/// The RS256 signature that the key in a PKCS#8 PEM text gives for bytes.
pub uninterp spec fn rs256_signature(pem: Seq<char>, payload: Seq<u8>) -> Option<Seq<u8>>;

/// Whether bytes are an RS256 signature of a payload under the public half of the key in a PKCS#8
/// PEM text.
pub uninterp spec fn rs256_valid(pem: Seq<char>, payload: Seq<u8>, sig: Seq<u8>) -> bool;

/// The public half of a key, and the length of its primes: `RsaPrivateKey::from_pkcs8_pem`, then
/// `to_public_key_der`, `n` and `e` of its `RsaPublicKey`, and `bits` of its two `primes`.
#[verifier::external_body]
fn key_parts(pem: &str) -> (r: Option<(Vec<u8>, Vec<u8>, Vec<u8>, usize, usize)>)
    ensures
        match r {
            Some(p) => rsa_public(pem@) == Some((p.0@, p.1@, p.2@)) && rsa_prime_bits(pem@) == Some((p.3, p.4)),
            None => rsa_public(pem@) is None && rsa_prime_bits(pem@) is None,
        },
{
    let private = RsaPrivateKey::from_pkcs8_pem(pem).ok()?;
    let public = RsaPublicKey::from(&private);
    let spki = public.to_public_key_der().ok()?.as_bytes().to_vec();
    let primes = private.primes();
    Some((spki, public.n().to_bytes_be(), public.e().to_bytes_be(), primes[0].bits(), primes[1].bits()))
}

/// An RS256 signature: PKCS#1 v1.5 `SigningKey::<Sha256>::try_sign`, which uses no randomness. Before
/// it returns a signature it checks it against the public half of the key, so `VerifyingKey::verify`
/// accepts it. On the way it adds the first prime to a difference of residues until that is not negative
/// any more, as often as the second prime is larger than the first: keys for which that does not end are
/// left out.
#[verifier::external_body]
fn rs256_sign(pem: &str, payload: &[u8]) -> (r: Option<Vec<u8>>)
    requires
        can_sign(pem@),
    ensures
        match r {
            Some(s) => rs256_signature(pem@, payload@) == Some(s@) && rs256_valid(
                pem@,
                payload@,
                s@,
            ),
            None => rs256_signature(pem@, payload@) is None,
        },
{
    let key = RsaPrivateKey::from_pkcs8_pem(pem).ok()?;
    let signer = rsa::pkcs1v15::SigningKey::<Sha256>::new(key);
    signer.try_sign(payload).ok().map(|s| s.to_vec())
}

/// Whether bytes are an RS256 signature: PKCS#1 v1.5 `VerifyingKey::<Sha256>::verify`.
#[verifier::external_body]
fn rs256_verify(pem: &str, payload: &[u8], sig: &[u8]) -> (r: bool)
    ensures
        r == rs256_valid(pem@, payload@, sig@),
{
    match (RsaPrivateKey::from_pkcs8_pem(pem), Signature::try_from(sig)) {
        (Ok(key), Ok(s)) => rsa::pkcs1v15::VerifyingKey::<Sha256>::new(RsaPublicKey::from(&key))
            .verify(payload, &s)
            .is_ok(),
        _ => false,
    }
}

/// How many bits the modulus of a new key has.
pub const KEY_BITS: usize = 2048;

/// A fresh RSA key with a modulus of this many bits as PKCS#8 PEM: `RsaPrivateKey::new`, which draws two
/// primes until their product has that many bits, and `to_pkcs8_pem`. The first prime has half of the
/// bits, and the second what is left. At these sizes neither has an error to give, and
/// `RsaPrivateKey::from_pkcs8_pem` reads the key from the text, also without the line end behind it.
/// Nothing is stated of which key it is, which is random.
#[verifier::external_body]
fn generate_pem(bits: usize) -> (r: Option<String>)
    requires
        64 <= bits <= 4096,
    ensures
        r is Some,
        r matches Some(p) ==> (rsa_public(text::trimmed(p@)) matches Some(k) && k.1.len() == (bits + 7) / 8),
        r matches Some(p) ==> (rsa_prime_bits(text::trimmed(p@)) matches Some(b) && b.1 <= b.0 + 1),
{
    let key = RsaPrivateKey::new(&mut rand::thread_rng(), bits).ok()?;
    key.to_pkcs8_pem(LineEnding::LF).ok().map(|doc| doc.as_str().to_owned())
}

/// The lower-case hexadecimal digit of a number below sixteen.
pub open spec fn hex_digit(n: int) -> char {
    if n < 10 {
        (48 + n) as char
    } else {
        (87 + n) as char
    }
}

/// Bytes in lower-case hexadecimal.
pub open spec fn hex_text(b: Seq<u8>) -> Seq<char>
    decreases b.len(),
{
    if b.len() == 0 {
        Seq::<char>::empty()
    } else {
        hex_text(b.drop_last()) + seq![
            hex_digit(b.last() as int / 16),
            hex_digit(b.last() as int % 16),
        ]
    }
}

fn hex_char(n: u8) -> (r: char)
    requires
        n < 16,
    ensures
        r == hex_digit(n as int),
{
    if n < 10 {
        (48 + n) as char
    } else {
        (87 + n) as char
    }
}

/// The first `n` of some bytes in lower-case hexadecimal.
fn hex_of(b: &Vec<u8>, n: usize) -> (r: String)
    requires
        n <= b@.len(),
    ensures
        r@ == hex_text(b@.take(n as int)),
{
    let mut out: String = String::new();
    let mut i: usize = 0;
    assert(b@.take(0) =~= Seq::<u8>::empty());
    while i < n
        invariant
            i <= n <= b@.len(),
            out@ == hex_text(b@.take(i as int)),
        decreases n - i,
    {
        let x: u8 = b[i];
        let ghost before = out@;
        out.push(hex_char(x / 16));
        out.push(hex_char(x % 16));
        proof {
            let t = b@.take(i + 1);
            assert(t.drop_last() =~= b@.take(i as int));
            assert(t.last() == x);
            assert(out@ =~= before + seq![hex_digit(x as int / 16), hex_digit(x as int % 16)]);
        }
        i += 1;
    }
    out
}

/// The identifier of a key: the first eight bytes of the SHA-256 digest of its public half, in
/// hexadecimal.
pub open spec fn key_id(spki: Seq<u8>) -> Seq<char> {
    hex_text(sha256_digest(spki).take(8))
}

/// What a signing key is: its identifier, the PEM text of the key pair, and the modulus and exponent
/// of the public half.
pub struct KeyV {
    pub kid: Seq<char>,
    pub pem: Seq<char>,
    pub n: Seq<u8>,
    pub e: Seq<u8>,
}

impl KeyV {
    /// The identifier and the numbers belong to the key of the PEM text, and that key can sign.
    pub open spec fn wf(self) -> bool {
        &&& can_sign(self.pem)
        &&& rsa_public(self.pem) matches Some(p) && self.kid == key_id(p.0) && self.n == p.1 && self.e == p.2
    }
}

/// The signing key that a PEM text holds, with or without white space around it: none where the key
/// cannot sign.
pub open spec fn key_of_pem(pem: Seq<char>) -> Option<KeyV> {
    match rsa_public(text::trimmed(pem)) {
        Some(p) => if can_sign(text::trimmed(pem)) {
            Some(KeyV { kid: key_id(p.0), pem: text::trimmed(pem), n: p.1, e: p.2 })
        } else {
            None
        },
        None => None,
    }
}

/// The signing key in the PEM text that the generator gave, if it gave one, with that text.
pub open spec fn generated_key(pem: Option<Seq<char>>) -> Option<(KeyV, Seq<char>)> {
    match pem {
        Some(p) => match key_of_pem(p) {
            Some(k) => Some((k, p)),
            None => None,
        },
        None => None,
    }
}

/// What a signing key and its PEM text hold.
pub open spec fn key_and_text(r: Option<(SigningKey, String)>) -> Option<(KeyV, Seq<char>)> {
    match r {
        Some(p) => Some((p.0@, p.1@)),
        None => None,
    }
}

/// A single active signing key.
pub struct SigningKey {
    kid: String,
    pem: String,
    n: Vec<u8>,
    e: Vec<u8>,
}

impl View for SigningKey {
    type V = KeyV;

    closed spec fn view(&self) -> KeyV {
        KeyV { kid: self.kid@, pem: self.pem@, n: self.n@, e: self.e@ }
    }
}

/// Where the signing key comes from.
#[derive(Debug)]
pub enum KeyPlan {
    /// This PEM text.
    Use(String),
    /// A new key, to be written to the path if there is one.
    Create { persist: bool },
    /// The file is there but cannot be read.
    Refuse,
}

/// Decides where the signing key comes from: `read` is what reading the path gave, and `exists`
/// whether there is a file.
pub fn key_plan(path_given: bool, read: Option<String>, exists: bool) -> (r: KeyPlan)
    ensures
        !path_given ==> r == (KeyPlan::Create { persist: false }),
        path_given && read is Some ==> r == KeyPlan::Use(read->0),
        path_given && read is None && !exists ==> r == (KeyPlan::Create { persist: true }),
        path_given && read is None && exists ==> r == KeyPlan::Refuse,
{
    if !path_given {
        return KeyPlan::Create { persist: false };
    }
    match read {
        Some(pem) => KeyPlan::Use(pem),
        None => if exists {
            KeyPlan::Refuse
        } else {
            KeyPlan::Create { persist: true }
        },
    }
}

impl SigningKey {
    /// What holds of every signing key.
    #[verifier::type_invariant]
    closed spec fn holds(self) -> bool {
        self@.wf()
    }

    /// The signing key in a PKCS#8 PEM text, with or without white space around it: none where the key
    /// cannot sign.
    pub fn from_pem(pem: &str) -> (r: Option<SigningKey>)
        ensures
            match r {
                Some(k) => key_of_pem(pem@) == Some(k@) && k@.wf(),
                None => key_of_pem(pem@) is None,
            },
    {
        let pem: String = text::trim(pem);
        match key_parts(pem.as_str()) {
            Some((spki, n, e, first, second)) => {
                if second > first && second - first > PRIME_GAP {
                    return None;
                }
                let digest: Vec<u8> = sha256(spki.as_slice());
                let kid: String = hex_of(&digest, 8);
                Some(SigningKey { kid, pem, n, e })
            },
            None => None,
        }
    }

    /// The signing key in the PEM text that the generator gave, with that text: none where it gave no
    /// text, or one without a key.
    pub fn from_generated(pem: Option<String>) -> (r: Option<(SigningKey, String)>)
        ensures
            key_and_text(r) == generated_key(text::opt_view(pem)),
            r matches Some(p) ==> p.0@.wf(),
    {
        match pem {
            Some(pem) => match SigningKey::from_pem(pem.as_str()) {
                Some(key) => Some((key, pem)),
                None => None,
            },
            None => None,
        }
    }

    /// A fresh signing key, with the PEM text that holds it. Nothing is stated of which key it is.
    pub fn generate() -> (r: Option<(SigningKey, String)>)
        ensures
            r is Some,
            r matches Some(p) ==> key_of_pem(p.1@) == Some(p.0@) && p.0@.wf() && p.0@.n.len() == KEY_BITS / 8,
    {
        SigningKey::from_generated(generate_pem(KEY_BITS))
    }

    /// The identifier of the key.
    pub fn kid(&self) -> (r: &str)
        ensures
            r@ == self@.kid,
    {
        self.kid.as_str()
    }

    /// The RS256 signature of a payload.
    pub fn sign_rs256(&self, payload: &[u8]) -> (r: Option<Vec<u8>>)
        ensures
            match r {
                Some(s) => rs256_signature(self@.pem, payload@) == Some(s@) && rs256_valid(
                    self@.pem,
                    payload@,
                    s@,
                ),
                None => rs256_signature(self@.pem, payload@) is None,
            },
    {
        proof {
            use_type_invariant(self);
        }
        rs256_sign(self.pem.as_str(), payload)
    }

    /// Whether bytes are an RS256 signature of a payload under this key.
    pub fn verify_rs256(&self, payload: &[u8], sig: &[u8]) -> (r: bool)
        ensures
            r == rs256_valid(self@.pem, payload@, sig@),
    {
        rs256_verify(self.pem.as_str(), payload, sig)
    }

    /// The public half of the key as a JSON Web Key.
    pub fn jwk(&self) -> (r: Value)
        ensures
            json::json_view(r) == jwk_view(self@),
    {
        let mut p: Vec<(String, Value)> = Vec::new();
        p.push(("kty".to_owned(), json::json_str("RSA".to_owned())));
        p.push(("use".to_owned(), json::json_str("sig".to_owned())));
        p.push(("alg".to_owned(), json::json_str("RS256".to_owned())));
        p.push(("kid".to_owned(), json::json_str(self.kid.clone())));
        p.push(("n".to_owned(), json::json_str(encoding::b64url(self.n.as_slice()))));
        p.push(("e".to_owned(), json::json_str(encoding::b64url(self.e.as_slice()))));
        assert(json::pair_views(p@) =~= jwk_members(self@));
        json::json_object(p)
    }
}

/// The members of the JSON Web Key of a key.
pub open spec fn jwk_members(k: KeyV) -> Seq<(Seq<char>, json::JsonV)> {
    seq![
        ("kty"@, json::JsonV::Str("RSA"@)),
        ("use"@, json::JsonV::Str("sig"@)),
        ("alg"@, json::JsonV::Str("RS256"@)),
        ("kid"@, json::JsonV::Str(k.kid)),
        ("n"@, json::JsonV::Str(encoding::base64(k.n, true))),
        ("e"@, json::JsonV::Str(encoding::base64(k.e, true))),
    ]
}

/// The JSON Web Key of a key: its public half alone.
pub open spec fn jwk_view(k: KeyV) -> json::JsonV {
    json::object(jwk_members(k))
}

} // verus!
