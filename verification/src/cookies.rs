//! Cookies and the credentials in a request's headers.

use crate::crypto;
use crate::encoding;
use crate::http::{AppState, HeadersV, RequestHeaders, StateV};
use crate::rows;
use crate::rows::{User, UserV};
use crate::store;
use crate::text;
use vstd::prelude::*;
use vstd::string::*;
use vstd::utf8::*;

verus! {

pub const SESSION_COOKIE: &'static str = "argus_session";

pub const CSRF_COOKIE: &'static str = "argus_csrf";

pub const GH_STATE_COOKIE: &'static str = "argus_gh_state";

pub const GH_NEXT_COOKIE: &'static str = "argus_gh_next";

/// The value of the first of these cookies that has this name.
pub open spec fn cookie_among(pieces: Seq<Seq<char>>, name: Seq<char>) -> Option<Seq<char>>
    decreases pieces.len(),
{
    if pieces.len() == 0 {
        None
    } else {
        match text::split_once(text::trimmed(pieces[0]), '=') {
            Some(kv) => if kv.0 == name {
                Some(kv.1)
            } else {
                cookie_among(pieces.skip(1), name)
            },
            None => cookie_among(pieces.skip(1), name),
        }
    }
}

/// The cookie with this name in a request.
pub open spec fn cookie(headers: HeadersV, name: Seq<char>) -> Option<Seq<char>> {
    match headers.cookie {
        Some(c) => cookie_among(text::split(c, ';'), name),
        None => None,
    }
}

/// The cookie with this name in a request.
pub fn cookie_value(headers: &RequestHeaders, name: &str) -> (r: Option<String>)
    ensures
        text::opt_view(r) == cookie(headers@, name@),
{
    let line: &String = match &headers.cookie {
        Some(c) => c,
        None => {
            return None;
        },
    };
    let pieces: Vec<String> = text::split_on(line.as_str(), ';');
    let ghost all = text::list_view(pieces@);
    let mut i: usize = 0;
    assert(all.skip(0) =~= all);
    while i < pieces.len()
        invariant
            i <= pieces@.len(),
            all == text::list_view(pieces@),
            cookie(headers@, name@) == cookie_among(all, name@),
            cookie_among(all, name@) == cookie_among(all.skip(i as int), name@),
        decreases pieces.len() - i,
    {
        let piece: String = text::trim(pieces[i].as_str());
        proof {
            assert(all.skip(i as int)[0] == pieces@[i as int]@);
            assert(all.skip(i as int).skip(1) =~= all.skip(i + 1));
        }
        match text::cut(piece.as_str(), '=') {
            Some((k, v)) => {
                if text::same(k.as_str(), name) {
                    return Some(v);
                }
            },
            None => {},
        }
        i += 1;
    }
    None
}

/// Whether a submitted form carries the CSRF token of the cookie: one of at most 128 bytes, not
/// empty.
pub open spec fn csrf_good(headers: HeadersV, submitted: Seq<char>) -> bool {
    match cookie(headers, CSRF_COOKIE@) {
        Some(c) => c.len() > 0 && text::byte_len(c) <= 128 && c == submitted,
        None => false,
    }
}

/// Whether a submitted form carries the CSRF token of the cookie.
pub fn csrf_ok(headers: &RequestHeaders, submitted: &str) -> (r: bool)
    ensures
        r == csrf_good(headers@, submitted@),
{
    match cookie_value(headers, CSRF_COOKIE) {
        Some(c) => {
            proof {
                text::encode_utf8_injective(c@, submitted@);
            }
            c.as_str().unicode_len() > 0 && text::len_in_bytes(c.as_str()) <= 128 && text::ct_eq(
                c.as_str().as_bytes(),
                submitted.as_bytes(),
            )
        },
        None => false,
    }
}

/// The CSRF token for a form: the one that the browser has, or a fresh one.
pub open spec fn csrf_for(headers: HeadersV, fresh: Seq<char>) -> Seq<char> {
    match cookie(headers, CSRF_COOKIE@) {
        Some(c) => if 1 <= text::byte_len(c) <= 128 {
            c
        } else {
            fresh
        },
        None => fresh,
    }
}

/// The CSRF token for a form: the one that the browser has, or the fresh one.
pub fn csrf_or(headers: &RequestHeaders, fresh: String) -> (r: String)
    ensures
        r@ == csrf_for(headers@, fresh@),
{
    match cookie_value(headers, CSRF_COOKIE) {
        Some(c) => {
            let n: usize = text::len_in_bytes(c.as_str());
            if 1 <= n && n <= 128 {
                c
            } else {
                fresh
            }
        },
        None => fresh,
    }
}

/// The CSRF token for a form: the one that the browser has, or a fresh one of 32 random bytes.
pub fn ensure_csrf_cookie(headers: &RequestHeaders) -> (r: String)
    ensures
        exists|fresh: Seq<char>| #[trigger] crypto::token_text(fresh, 32) && r@ == csrf_for(headers@, fresh),
{
    let fresh: String = crypto::rand_token(32);
    csrf_or(headers, fresh)
}

/// A form with the token that the provider put into it, sent back by the browser that has the cookie,
/// passes: the cookie's value is what `csrf_for` chose, and a fresh token is short enough.
pub proof fn csrf_token_of_a_form_passes(asked: HeadersV, sent: HeadersV, fresh: Seq<char>)
    requires
        crypto::token_text(fresh, 32),
        cookie(sent, CSRF_COOKIE@) == Some(csrf_for(asked, fresh)),
    ensures
        csrf_good(sent, csrf_for(asked, fresh)),
{
    let c = csrf_for(asked, fresh);
    text::byte_len_zero(c);
    if c == fresh {
        let b = choose|b: Seq<u8>| b.len() == 32 && #[trigger] encoding::base64(b, true) == fresh;
        encoding::base64_length(b, true);
        encoding::b64url_is_plain(b);
        assert forall|i: int| 0 <= i < fresh.len() implies '\0' <= #[trigger] fresh[i] <= '\u{7f}' by {
            assert(encoding::url_digit(encoding::base64(b, true)[i]));
        }
        is_ascii_chars_encode_utf8(fresh);
    }
}

/// The cookie that carries a CSRF token.
pub open spec fn csrf_cookie(csrf: Seq<char>) -> Seq<char> {
    CSRF_COOKIE@ + "="@ + csrf + "; Path=/; Max-Age=3600; HttpOnly; SameSite=Lax; Secure"@
}

pub fn set_csrf(csrf: &str) -> (r: String)
    ensures
        r@ == csrf_cookie(csrf@),
{
    let mut s: String = CSRF_COOKIE.to_owned();
    s.append("=");
    s.append(csrf);
    s.append("; Path=/; Max-Age=3600; HttpOnly; SameSite=Lax; Secure");
    s
}

/// The cookie that removes the CSRF token, after signing in.
pub open spec fn csrf_removed() -> Seq<char> {
    CSRF_COOKIE@ + "=; Path=/; Max-Age=0; HttpOnly"@
}

pub fn remove_csrf() -> (r: String)
    ensures
        r@ == csrf_removed(),
{
    let mut s: String = CSRF_COOKIE.to_owned();
    s.append("=; Path=/; Max-Age=0; HttpOnly");
    s
}

/// The cookie that carries a session.
pub open spec fn session_cookie(sid: Seq<char>, ttl: u64) -> Seq<char> {
    SESSION_COOKIE@ + "="@ + sid + "; Path=/; Max-Age="@ + text::decimal(ttl as nat)
        + "; HttpOnly; SameSite=Lax; Secure"@
}

pub fn set_session(sid: &str, ttl: u64) -> (r: String)
    ensures
        r@ == session_cookie(sid@, ttl),
{
    let mut s: String = SESSION_COOKIE.to_owned();
    s.append("=");
    s.append(sid);
    s.append("; Path=/; Max-Age=");
    let n: String = text::to_decimal(ttl);
    s.append(n.as_str());
    s.append("; HttpOnly; SameSite=Lax; Secure");
    s
}

/// The cookie that ends a session.
pub open spec fn session_removed() -> Seq<char> {
    SESSION_COOKIE@ + "=; Path=/; Max-Age=0; HttpOnly; SameSite=Lax"@
}

pub fn remove_session() -> (r: String)
    ensures
        r@ == session_removed(),
{
    let mut s: String = SESSION_COOKIE.to_owned();
    s.append("=; Path=/; Max-Age=0; HttpOnly; SameSite=Lax");
    s
}

/// A cookie for the ten minutes that a sign-in at GitHub may take.
pub open spec fn github_cookie(name: Seq<char>, value: Seq<char>) -> Seq<char> {
    name + "="@ + value + "; Path=/; Max-Age=600; HttpOnly; SameSite=Lax; Secure"@
}

pub fn set_github(name: &str, value: &str) -> (r: String)
    ensures
        r@ == github_cookie(name@, value@),
{
    let mut s: String = name.to_owned();
    s.append("=");
    s.append(value);
    s.append("; Path=/; Max-Age=600; HttpOnly; SameSite=Lax; Secure");
    s
}

/// The cookie that removes one of a sign-in at GitHub.
pub open spec fn github_removed(name: Seq<char>) -> Seq<char> {
    name + "=; Path=/; Max-Age=0"@
}

pub fn remove_github(name: &str) -> (r: String)
    ensures
        r@ == github_removed(name@),
{
    let mut s: String = name.to_owned();
    s.append("=; Path=/; Max-Age=0");
    s
}

/// The person who is signed in.
pub open spec fn signed_in(state: StateV, headers: HeadersV, now: u64) -> Option<UserV> {
    match cookie(headers, SESSION_COOKIE@) {
        Some(sid) => state.store.of_session(sid, now),
        None => None,
    }
}

/// The person who is signed in.
pub fn current_user(state: &AppState, headers: &RequestHeaders, now: u64) -> (r: Option<User>)
    ensures
        rows::opt_row(r) == signed_in(state@, headers@, now),
{
    match cookie_value(headers, SESSION_COOKIE) {
        Some(sid) => match state.store.session_user(sid.as_str(), now) {
            Ok(u) => u,
            Err(_) => None,
        },
        None => None,
    }
}

/// The name and the secret of `Basic` credentials.
pub open spec fn basic(headers: HeadersV) -> Option<(Seq<char>, Seq<char>)> {
    match headers.authorization {
        None => None,
        Some(a) => match text::after_prefix(a, "Basic "@) {
            None => None,
            Some(enc) => match encoding::base64_bytes(enc, false) {
                None => None,
                Some(b) => match encoding::utf8_text(b) {
                    None => None,
                    Some(s) => text::split_once(s, ':'),
                },
            },
        },
    }
}

/// What two optional texts hold.
pub open spec fn pair_view(o: Option<(String, String)>) -> Option<(Seq<char>, Seq<char>)> {
    match o {
        Some(p) => Some((p.0@, p.1@)),
        None => None,
    }
}

/// The name and the secret of `Basic` credentials.
pub fn basic_credentials(headers: &RequestHeaders) -> (r: Option<(String, String)>)
    ensures
        pair_view(r) == basic(headers@),
{
    let auth: &String = match &headers.authorization {
        Some(a) => a,
        None => {
            return None;
        },
    };
    let enc: String = match text::strip_prefix(auth.as_str(), "Basic ") {
        Some(e) => e,
        None => {
            return None;
        },
    };
    let bytes: Vec<u8> = match encoding::b64_decode(enc.as_str()) {
        Some(b) => b,
        None => {
            return None;
        },
    };
    proof {
        encoding::base64_round_trip(bytes@, false);
    }
    let plain: String = match encoding::string_of_utf8(bytes) {
        Some(s) => s,
        None => {
            return None;
        },
    };
    text::cut(plain.as_str(), ':')
}

/// The bearer token of a request, or nothing.
pub open spec fn bearer(headers: HeadersV) -> Seq<char> {
    match headers.authorization {
        None => Seq::empty(),
        Some(a) => match text::after_prefix(a, "Bearer "@) {
            None => Seq::empty(),
            Some(t) => t,
        },
    }
}

/// The bearer token of a request, or nothing.
pub fn bearer_token(headers: &RequestHeaders) -> (r: String)
    ensures
        r@ == bearer(headers@),
{
    let found: Option<String> = match &headers.authorization {
        Some(a) => text::strip_prefix(a.as_str(), "Bearer "),
        None => None,
    };
    match found {
        Some(t) => t,
        None => {
            let empty: String = String::new();
            assert(empty@ =~= Seq::empty());
            empty
        },
    }
}

} // verus!
