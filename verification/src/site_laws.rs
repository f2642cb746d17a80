//! What the provider says of itself, what its pages and replies carry, and which clients may register.

use crate::access_laws;
use crate::access_laws::said;
use crate::account_laws;
use crate::config::ConfigV;
use crate::cookies;
use crate::crypto;
use crate::crypto::KeyV;
use crate::encoding;
use crate::http;
use crate::http::{BodyV, HeadersV, ReplyV, StateV};
use crate::json;
use crate::json::JsonV;
use crate::login;
use crate::oidc;
use crate::oidc::ClientRegistration;
use crate::pages;
use crate::rows::ClientRowV;
use crate::store;
use crate::store_laws;
use crate::tables;
use crate::text;
use crate::text_laws;
use vstd::prelude::*;
use vstd::string::*;

verus! {

// ---------------------------------------------------------------------------------------------
// Discovery
// ---------------------------------------------------------------------------------------------

/// Whether JSON is the list of these texts.
pub open spec fn lists(v: Option<JsonV>, s: Seq<Seq<char>>) -> bool {
    v matches Some(JsonV::Arr(a)) && a.len() == s.len() && forall|i: int|
        0 <= i < a.len() ==> #[trigger] a[i] == JsonV::Str(s[i])
}

/// The issuer is the address that is set, without slashes at its end.
pub proof fn who_the_issuer_is(c: ConfigV)
    ensures
        c.issuer().len() <= c.external_url.len(),
        c.external_url.take(c.issuer().len() as int) == c.issuer(),
        forall|i: int| c.issuer().len() <= i < c.external_url.len() ==> #[trigger] c.external_url[i] == '/',
        c.issuer().len() > 0 ==> c.issuer().last() != '/',
{
    text_laws::trailing_ones_are_taken(c.external_url, '/');
}

/// Discovery names the issuer and, under its address, every endpoint; codes with S256 are what is supported,
/// tokens are signed with RS256, and the standard scopes are known.
pub proof fn what_discovery_says(state: StateV)
    ensures
        ({
            let r = oidc::discovery_reply(state);
            let iss = state.config.issuer();
            &&& r.status == 200
            &&& r.cache_control == Some("public, max-age=300"@)
            &&& account_laws::gives_nothing(r)
            &&& said(r, "issuer"@) == Some(JsonV::Str(iss))
            &&& said(r, "authorization_endpoint"@) == Some(JsonV::Str(iss + "/authorize"@))
            &&& said(r, "token_endpoint"@) == Some(JsonV::Str(iss + "/token"@))
            &&& said(r, "userinfo_endpoint"@) == Some(JsonV::Str(iss + "/userinfo"@))
            &&& said(r, "jwks_uri"@) == Some(JsonV::Str(iss + "/jwks.json"@))
            &&& said(r, "introspection_endpoint"@) == Some(JsonV::Str(iss + "/introspect"@))
            &&& said(r, "registration_endpoint"@) == Some(JsonV::Str(iss + "/register-client"@))
            &&& lists(said(r, "response_types_supported"@), seq!["code"@])
            &&& lists(said(r, "grant_types_supported"@), seq!["authorization_code"@, "refresh_token"@])
            &&& lists(said(r, "subject_types_supported"@), seq!["public"@])
            &&& lists(said(r, "id_token_signing_alg_values_supported"@), seq!["RS256"@])
            &&& lists(said(r, "code_challenge_methods_supported"@), seq!["S256"@])
            &&& lists(said(r, "scopes_supported"@), seq!["openid"@, "profile"@, "email"@, "offline_access"@])
            &&& lists(
                said(r, "token_endpoint_auth_methods_supported"@),
                seq!["client_secret_post"@, "client_secret_basic"@, "none"@],
            )
            &&& lists(
                said(r, "claims_supported"@),
                seq!["sub"@, "email"@, "name"@, "iss"@, "aud"@, "exp"@, "iat"@],
            )
        }),
{
    let p = oidc::discovery_members(state.config.issuer());
    discovery_names_differ();
    json::member_of_pair(p, 0);
    json::member_of_pair(p, 1);
    json::member_of_pair(p, 2);
    json::member_of_pair(p, 3);
    json::member_of_pair(p, 4);
    json::member_of_pair(p, 5);
    json::member_of_pair(p, 6);
    json::member_of_pair(p, 7);
    json::member_of_pair(p, 8);
    json::member_of_pair(p, 9);
    json::member_of_pair(p, 10);
    json::member_of_pair(p, 11);
    json::member_of_pair(p, 12);
    json::member_of_pair(p, 13);
    json::member_of_pair(p, 14);
}

proof fn discovery_names_differ()
    ensures
        "issuer"@.len() == 6,
        "authorization_endpoint"@.len() == 22 && "authorization_endpoint"@[0] == 'a',
        "token_endpoint"@.len() == 14,
        "userinfo_endpoint"@.len() == 17,
        "jwks_uri"@.len() == 8,
        "introspection_endpoint"@.len() == 22 && "introspection_endpoint"@[0] == 'i',
        "registration_endpoint"@.len() == 21 && "registration_endpoint"@[0] == 'r',
        "response_types_supported"@.len() == 24,
        "grant_types_supported"@.len() == 21 && "grant_types_supported"@[0] == 'g',
        "subject_types_supported"@.len() == 23,
        "id_token_signing_alg_values_supported"@.len() == 37 && "id_token_signing_alg_values_supported"@[0] == 'i',
        "code_challenge_methods_supported"@.len() == 32,
        "scopes_supported"@.len() == 16 && "scopes_supported"@[0] == 's',
        "token_endpoint_auth_methods_supported"@.len() == 37 && "token_endpoint_auth_methods_supported"@[0] == 't',
        "claims_supported"@.len() == 16 && "claims_supported"@[0] == 'c',
{
    reveal_strlit("issuer");
    reveal_strlit("authorization_endpoint");
    reveal_strlit("token_endpoint");
    reveal_strlit("userinfo_endpoint");
    reveal_strlit("jwks_uri");
    reveal_strlit("introspection_endpoint");
    reveal_strlit("registration_endpoint");
    reveal_strlit("response_types_supported");
    reveal_strlit("grant_types_supported");
    reveal_strlit("subject_types_supported");
    reveal_strlit("id_token_signing_alg_values_supported");
    reveal_strlit("code_challenge_methods_supported");
    reveal_strlit("scopes_supported");
    reveal_strlit("token_endpoint_auth_methods_supported");
    reveal_strlit("claims_supported");
}

/// The published key is the public half of the signing key, under its identifier, and no private number is
/// published.
pub proof fn what_keys_are_published(state: StateV)
    ensures
        ({
            let r = oidc::jwks_reply(state);
            &&& r.status == 200
            &&& r.cache_control == Some("public, max-age=300"@)
            &&& account_laws::gives_nothing(r)
            &&& said(r, "keys"@) matches Some(JsonV::Arr(keys)) && keys.len() == 1 && {
                let k = keys[0];
                &&& json::member_str(k, "kty"@) == Some("RSA"@)
                &&& json::member_str(k, "use"@) == Some("sig"@)
                &&& json::member_str(k, "alg"@) == Some("RS256"@)
                &&& json::member_str(k, "kid"@) == Some(state.key.kid)
                &&& json::member_str(k, "n"@) == Some(encoding::base64(state.key.n, true))
                &&& json::member_str(k, "e"@) == Some(encoding::base64(state.key.e, true))
                &&& json::member(k, "d"@) is None && json::member(k, "p"@) is None && json::member(k, "q"@) is None
            }
        }),
{
    let p = crypto::jwk_members(state.key);
    reveal_strlit("kty");
    reveal_strlit("use");
    reveal_strlit("alg");
    reveal_strlit("kid");
    reveal_strlit("n");
    reveal_strlit("e");
    reveal_strlit("d");
    reveal_strlit("p");
    reveal_strlit("q");
    assert("kty"@.len() == 3 && "kty"@[1] == 't');
    assert("kid"@.len() == 3 && "kid"@[1] == 'i');
    assert("use"@.len() == 3 && "use"@[1] == 's');
    assert("alg"@.len() == 3 && "alg"@[1] == 'l');
    assert("n"@.len() == 1 && "n"@[0] == 'n');
    assert("e"@.len() == 1 && "e"@[0] == 'e');
    assert("d"@.len() == 1 && "d"@[0] == 'd');
    assert("p"@.len() == 1 && "p"@[0] == 'p');
    assert("q"@.len() == 1 && "q"@[0] == 'q');
    json::member_of_pair(p, 0);
    json::member_of_pair(p, 1);
    json::member_of_pair(p, 2);
    json::member_of_pair(p, 3);
    json::member_of_pair(p, 4);
    json::member_of_pair(p, 5);
    json::member_of_no_pair(p, "d"@);
    json::member_of_no_pair(p, "p"@);
    json::member_of_no_pair(p, "q"@);
    json::member_of_pair(seq![("keys"@, JsonV::Arr(seq![crypto::jwk_view(state.key)]))], 0);
}

/// The key in a PEM text is that of the text without white space around it: its numbers are those of its
/// public half, and its identifier is made of the first eight bytes of the digest of that.
pub proof fn which_key_a_text_holds(pem: Seq<char>)
    ensures
        crypto::key_of_pem(pem) matches Some(k) ==> {
            &&& k.pem == text::trimmed(pem)
            &&& crypto::rsa_public(k.pem) matches Some(p) && k.n == p.1 && k.e == p.2 && k.kid.len() == 2
                * crypto::sha256_digest(p.0).take(8).len() && forall|i: int|
                0 <= i < crypto::sha256_digest(p.0).take(8).len() ==> 16 * text_laws::hex_number(k.kid[2 * i])
                    + text_laws::hex_number(k.kid[2 * i + 1]) == #[trigger] crypto::sha256_digest(p.0).take(8)[i]
        },
        crypto::rsa_public(text::trimmed(pem)) is None ==> crypto::key_of_pem(pem) is None,
        crypto::rsa_public(text::trimmed(pem)) is Some && (crypto::rsa_prime_bits(text::trimmed(pem)) matches Some(b)
            && b.1 <= b.0) ==> crypto::key_of_pem(pem) is Some,
{
    match crypto::rsa_public(text::trimmed(pem)) {
        Some(p) => {
            text_laws::hexadecimals_stand_for_bytes(crypto::sha256_digest(p.0).take(8));
        },
        None => {},
    }
}

/// The provider says that it is there.
pub proof fn what_health_says()
    ensures
        oidc::health_reply().status == 200,
        said(oidc::health_reply(), "status"@) == Some(JsonV::Str("ok"@)),
        said(oidc::health_reply(), "service"@) == Some(JsonV::Str("argus"@)),
{
    reveal_strlit("status");
    reveal_strlit("service");
    assert("status"@.len() == 6 && "service"@.len() == 7);
    let p = seq![("status"@, JsonV::Str("ok"@)), ("service"@, JsonV::Str("argus"@))];
    json::member_of_pair(p, 0);
    json::member_of_pair(p, 1);
}

// ---------------------------------------------------------------------------------------------
// Pages and replies
// ---------------------------------------------------------------------------------------------

/// An error page says what went wrong, gives nothing, and is answered as a bad request.
pub proof fn what_error_pages_say(msg: Seq<char>)
    ensures
        pages::error_reply(msg).status == 400,
        account_laws::gives_nothing(pages::error_reply(msg)),
        pages::error_reply(msg).body matches BodyV::Html(page) && account_laws::holds(page, msg),
{
    let body = "<p>"@ + msg + "</p><a href=\"/login\">Back</a>"@;
    access_laws::holds_last("<p>"@, msg);
    access_laws::holds_more("<p>"@ + msg, "</p><a href=\"/login\">Back</a>"@, msg);
    let head = pages::PAGE_START@ + "Error"@ + pages::PAGE_STYLE@ + "Error"@ + "</h1>"@;
    access_laws::holds_inside(head, body, "</div></body></html>"@, msg);
}

/// A form carries the token that the browser has, if it is one, or else a fresh one; the cookie is set to it.
pub proof fn which_token_a_form_carries(headers: HeadersV, fresh: Seq<char>)
    ensures
        ({
            let t = cookies::csrf_for(headers, fresh);
            match cookies::cookie(headers, "argus_csrf"@) {
                Some(c) => if c.len() > 0 && vstd::utf8::encode_utf8(c).len() <= 128 {
                    t == c
                } else {
                    t == fresh
                },
                None => t == fresh,
            }
        }),
{
    match cookies::cookie(headers, cookies::CSRF_COOKIE@) {
        Some(c) => {
            text::byte_len_zero(c);
        },
        None => {},
    }
}

/// The sign-in page carries the token of the form and where to go next, and sets the cookie that the token
/// is compared with. GitHub is offered only where it is set up.
pub proof fn what_the_sign_in_page_holds(state: StateV, headers: HeadersV, next: Option<Seq<char>>, fresh: Seq<char>)
    ensures
        ({
            let r = login::login_page(state, headers, next, fresh);
            let csrf = cookies::csrf_for(headers, fresh);
            let n = match next {
                Some(n) => n,
                None => Seq::empty(),
            };
            &&& r.status == 200
            &&& r.location is None
            &&& r.cookies.len() == 1 && text::has_prefix(r.cookies[0], "argus_csrf"@ + "="@ + csrf + ";"@)
            &&& r.body matches BodyV::Html(page) && {
                &&& account_laws::holds(page, "name=\"csrf\" value=\""@ + csrf + "\""@)
                &&& account_laws::holds(page, "name=\"next\" value=\""@ + encoding::url_encoded(n) + "\""@)
                &&& state.config.github_client_id is None ==> account_laws::holds(
                    page,
                    "disabled title='GitHub login not configured'"@,
                )
            }
        }),
{
    let csrf = cookies::csrf_for(headers, fresh);
    let n = encoding::url_encoded(login::or_empty(next));
    let quote = "\""@;
    let head = pages::PAGE_START@ + "Sign in"@ + pages::PAGE_STYLE@ + "Sign in"@ + "</h1>"@;
    let tail = "</div></body></html>"@;
    let off = if state.config.github_client_id is Some {
        ""@
    } else {
        login::LOGIN_GITHUB_OFF@
    };
    sign_in_parts_fit();
    access_laws::csrf_cookie_starts(csrf);
    let x = "name=\"csrf\" value=\""@ + csrf + quote;
    let y = "name=\"next\" value=\""@ + n + quote;
    let z = Seq::<char>::empty();
    let b1 = login::LOGIN_CSRF@ + csrf + login::LOGIN_NEXT@;
    assert(z + login::LOGIN_CSRF@ =~= login::LOGIN_CSRF@);
    access_laws::holds_between(z, login::LOGIN_CSRF@, csrf, login::LOGIN_NEXT@, "name=\"csrf\" value=\""@, quote);
    let b2 = b1 + n + login::LOGIN_FIELDS@;
    access_laws::holds_on(b1, n, login::LOGIN_FIELDS@, x);
    access_laws::holds_between(
        login::LOGIN_CSRF@ + csrf,
        login::LOGIN_NEXT@,
        n,
        login::LOGIN_FIELDS@,
        "name=\"next\" value=\""@,
        quote,
    );
    let b3 = b2 + n + login::LOGIN_GITHUB@;
    access_laws::holds_on(b2, n, login::LOGIN_GITHUB@, x);
    access_laws::holds_on(b2, n, login::LOGIN_GITHUB@, y);
    let b4 = b3 + off + login::LOGIN_REGISTER@;
    access_laws::holds_on(b3, off, login::LOGIN_REGISTER@, x);
    access_laws::holds_on(b3, off, login::LOGIN_REGISTER@, y);
    access_laws::holds_last(b3, off);
    access_laws::holds_more(b3 + off, login::LOGIN_REGISTER@, off);
    let body = b4 + n + login::LOGIN_END@;
    access_laws::holds_on(b4, n, login::LOGIN_END@, x);
    access_laws::holds_on(b4, n, login::LOGIN_END@, y);
    access_laws::holds_on(b4, n, login::LOGIN_END@, off);
    access_laws::holds_inside(head, body, tail, x);
    access_laws::holds_inside(head, body, tail, y);
    access_laws::holds_inside(head, body, tail, off);
    let r = login::login_page(state, headers, next, fresh);
    assert(r.body == BodyV::Html(head + body + tail));
}

proof fn sign_in_parts_fit()
    ensures
        ({
            let c = login::LOGIN_CSRF@;
            let p = login::LOGIN_NEXT@;
            let n = "name=\"csrf\" value=\""@;
            let m = "name=\"next\" value=\""@;
            &&& n.len() <= c.len() && c.skip(c.len() - n.len()) == n
            &&& m.len() <= p.len() && p.skip(p.len() - m.len()) == m
            &&& text::has_prefix(p, "\""@)
            &&& text::has_prefix(login::LOGIN_FIELDS@, "\""@)
        }),
{
    reveal_strlit("name=\"csrf\" value=\"");
    reveal_strlit("name=\"next\" value=\"");
    reveal_strlit("\"");
    reveal_strlit("<form method=\"post\" action=\"/login\"><input type=\"hidden\" name=\"csrf\" value=\"");
    reveal_strlit("\"><input type=\"hidden\" name=\"next\" value=\"");
    reveal_strlit(
        "\"><input type=\"email\" name=\"email\" placeholder=\"Email\" required autofocus><input type=\"password\" name=\"password\" placeholder=\"Password\" required><button type=\"submit\">Sign in</button></form><p style=\"text-align:center\">— or —</p><form method=\"get\" action=\"/auth/github\"><input type=\"hidden\" name=\"next\" value=\"",
    );
    let c = login::LOGIN_CSRF@;
    let p = login::LOGIN_NEXT@;
    let n = "name=\"csrf\" value=\""@;
    let m = "name=\"next\" value=\""@;
    assert(c.skip(c.len() - n.len()) =~= n);
    assert(p.skip(p.len() - m.len()) =~= m);
    assert(p.take(1) =~= "\""@);
    assert(login::LOGIN_FIELDS@.take(1) =~= "\""@);
}

/// The registration page carries the token of the form and where to go next, and sets the cookie that the
/// token is compared with.
pub proof fn what_the_registration_page_holds(headers: HeadersV, next: Option<Seq<char>>, fresh: Seq<char>)
    ensures
        ({
            let r = login::register_page(headers, next, fresh);
            let csrf = cookies::csrf_for(headers, fresh);
            let n = match next {
                Some(n) => n,
                None => Seq::empty(),
            };
            &&& r.status == 200
            &&& r.location is None
            &&& r.cookies.len() == 1 && text::has_prefix(r.cookies[0], "argus_csrf"@ + "="@ + csrf + ";"@)
            &&& r.body matches BodyV::Html(page) && {
                &&& account_laws::holds(page, "name=\"csrf\" value=\""@ + csrf + "\""@)
                &&& account_laws::holds(page, "name=\"next\" value=\""@ + encoding::url_encoded(n) + "\""@)
            }
        }),
{
    let csrf = cookies::csrf_for(headers, fresh);
    let n = encoding::url_encoded(login::or_empty(next));
    let quote = "\""@;
    let head = pages::PAGE_START@ + "Register"@ + pages::PAGE_STYLE@ + "Register"@ + "</h1>"@;
    let tail = "</div></body></html>"@;
    register_parts_fit();
    access_laws::csrf_cookie_starts(csrf);
    let x = "name=\"csrf\" value=\""@ + csrf + quote;
    let y = "name=\"next\" value=\""@ + n + quote;
    let z = Seq::<char>::empty();
    let b1 = login::REGISTER_CSRF@ + csrf + login::REGISTER_NEXT@;
    assert(z + login::REGISTER_CSRF@ =~= login::REGISTER_CSRF@);
    access_laws::holds_between(
        z,
        login::REGISTER_CSRF@,
        csrf,
        login::REGISTER_NEXT@,
        "name=\"csrf\" value=\""@,
        quote,
    );
    let body = b1 + n + login::REGISTER_FIELDS@;
    access_laws::holds_on(b1, n, login::REGISTER_FIELDS@, x);
    access_laws::holds_between(
        login::REGISTER_CSRF@ + csrf,
        login::REGISTER_NEXT@,
        n,
        login::REGISTER_FIELDS@,
        "name=\"next\" value=\""@,
        quote,
    );
    access_laws::holds_inside(head, body, tail, x);
    access_laws::holds_inside(head, body, tail, y);
    let r = login::register_page(headers, next, fresh);
    assert(r.body == BodyV::Html(head + body + tail));
}

proof fn register_parts_fit()
    ensures
        ({
            let c = login::REGISTER_CSRF@;
            let p = login::REGISTER_NEXT@;
            let n = "name=\"csrf\" value=\""@;
            let m = "name=\"next\" value=\""@;
            &&& n.len() <= c.len() && c.skip(c.len() - n.len()) == n
            &&& m.len() <= p.len() && p.skip(p.len() - m.len()) == m
            &&& text::has_prefix(p, "\""@)
            &&& text::has_prefix(login::REGISTER_FIELDS@, "\""@)
        }),
{
    reveal_strlit("name=\"csrf\" value=\"");
    reveal_strlit("name=\"next\" value=\"");
    reveal_strlit("\"");
    reveal_strlit("<form method=\"post\" action=\"/register\"><input type=\"hidden\" name=\"csrf\" value=\"");
    reveal_strlit("\"><input type=\"hidden\" name=\"next\" value=\"");
    reveal_strlit(
        "\"><input type=\"text\" name=\"name\" placeholder=\"Name\" required maxlength=\"200\"><input type=\"email\" name=\"email\" placeholder=\"Email\" required><input type=\"password\" name=\"password\" minlength=\"10\" placeholder=\"Password (min 10 chars)\" required><button>Create account</button></form>",
    );
    let c = login::REGISTER_CSRF@;
    let p = login::REGISTER_NEXT@;
    let n = "name=\"csrf\" value=\""@;
    let m = "name=\"next\" value=\""@;
    assert(c.skip(c.len() - n.len()) =~= n);
    assert(p.skip(p.len() - m.len()) =~= m);
    assert(p.take(1) =~= "\""@);
    assert(login::REGISTER_FIELDS@.take(1) =~= "\""@);
}

/// Every header of a reply is sent: where to go, each cookie, the rule for caches, and the type of the body.
pub proof fn what_is_sent(r: ReplyV)
    ensures
        r.location matches Some(l) ==> http::headers_of(r).contains(("location"@, l)),
        r.cache_control matches Some(c) ==> http::headers_of(r).contains(("cache-control"@, c)),
        r.body is Html ==> http::headers_of(r).contains(("content-type"@, "text/html; charset=utf-8"@)),
        r.body is Json ==> http::headers_of(r).contains(("content-type"@, "application/json"@)),
        forall|i: int|
            0 <= i < r.cookies.len() ==> http::headers_of(r).contains(("set-cookie"@, #[trigger] r.cookies[i])),
{
    let h = http::headers_of(r);
    let a = http::optional_header("content-type"@, http::content_type(r.body));
    let b = http::optional_header("cache-control"@, r.cache_control);
    let c = http::optional_header("location"@, r.location);
    let d = r.cookies.map_values(|c: Seq<char>| ("set-cookie"@, c));
    if r.body is Html || r.body is Json {
        assert(h[0] == a[0]);
    }
    if r.cache_control is Some {
        assert(h[a.len() as int] == b[0]);
    }
    if r.location is Some {
        assert(h[(a.len() + b.len()) as int] == c[0]);
    }
    assert forall|i: int| 0 <= i < r.cookies.len() implies h.contains(("set-cookie"@, #[trigger] r.cookies[i])) by {
        let k = (a.len() + b.len() + c.len()) as int;
        assert(h[k + i] == d[i]);
    }
}

/// A page holds its title and its body.
pub proof fn what_pages_hold(title: Seq<char>, body: Seq<char>)
    ensures
        account_laws::holds(pages::page_text(title, body), title),
        account_laws::holds(pages::page_text(title, body), body),
{
    let a = pages::PAGE_START@ + title;
    access_laws::holds_last(pages::PAGE_START@, title);
    access_laws::holds_on(a, pages::PAGE_STYLE@, title, title);
    let head = a + pages::PAGE_STYLE@ + title + "</h1>"@;
    access_laws::holds_more(a + pages::PAGE_STYLE@ + title, "</h1>"@, title);
    access_laws::holds_on(head, body, "</div></body></html>"@, title);
    access_laws::holds_last(head, body);
    access_laws::holds_more(head + body, "</div></body></html>"@, body);
}

/// Whether a text ends with another.
pub open spec fn ends_with(t: Seq<char>, e: Seq<char>) -> bool {
    e.len() <= t.len() && t.skip(t.len() - e.len()) == e
}

/// Every cookie with a value is out of reach of scripts and of other sites, and is sent over encrypted
/// connections alone; the session cookie lasts as long as the session. Every cookie without one is removed.
pub proof fn how_cookies_are_kept(sid: Seq<char>, ttl: u64, csrf: Seq<char>, name: Seq<char>, value: Seq<char>)
    ensures
        ends_with(cookies::session_cookie(sid, ttl), "; HttpOnly; SameSite=Lax; Secure"@),
        account_laws::holds(
            cookies::session_cookie(sid, ttl),
            "Max-Age="@ + text::decimal(ttl as nat) + ";"@,
        ),
        ends_with(cookies::csrf_cookie(csrf), "; HttpOnly; SameSite=Lax; Secure"@),
        ends_with(cookies::github_cookie(name, value), "; HttpOnly; SameSite=Lax; Secure"@),
        account_laws::holds(cookies::csrf_cookie(csrf), "; Path=/; Max-Age=3600;"@),
        account_laws::holds(cookies::github_cookie(name, value), "; Path=/; Max-Age=600;"@),
        account_laws::holds(cookies::csrf_removed(), "Max-Age=0"@),
        account_laws::holds(cookies::session_removed(), "Max-Age=0"@),
        account_laws::holds(cookies::github_removed(name), "Max-Age=0"@),
{
    let end = "; HttpOnly; SameSite=Lax; Secure"@;
    reveal_strlit("; HttpOnly; SameSite=Lax; Secure");
    reveal_strlit("; Path=/; Max-Age=3600; HttpOnly; SameSite=Lax; Secure");
    reveal_strlit("; Path=/; Max-Age=600; HttpOnly; SameSite=Lax; Secure");
    reveal_strlit("; Path=/; Max-Age=");
    reveal_strlit("Max-Age=");
    reveal_strlit("Max-Age=0");
    reveal_strlit("=; Path=/; Max-Age=0; HttpOnly");
    reveal_strlit("=; Path=/; Max-Age=0; HttpOnly; SameSite=Lax");
    reveal_strlit("=; Path=/; Max-Age=0");
    reveal_strlit(";");
    let s = cookies::session_cookie(sid, ttl);
    assert(s.skip(s.len() - end.len()) =~= end);
    let c = cookies::csrf_cookie(csrf);
    assert(c.skip(c.len() - end.len()) =~= end);
    let g = cookies::github_cookie(name, value);
    assert(g.skip(g.len() - end.len()) =~= end);
    reveal_strlit("; Path=/; Max-Age=3600;");
    reveal_strlit("; Path=/; Max-Age=600;");
    let c1 = "; Path=/; Max-Age=3600; HttpOnly; SameSite=Lax; Secure"@;
    let c2 = "; Path=/; Max-Age=3600;"@;
    assert(cookies::CSRF_COOKIE@ + "="@ + csrf + c2 + c1.skip(c2.len() as int) =~= c);
    let g1 = "; Path=/; Max-Age=600; HttpOnly; SameSite=Lax; Secure"@;
    let g2 = "; Path=/; Max-Age=600;"@;
    assert(name + "="@ + value + g2 + g1.skip(g2.len() as int) =~= g);
    let m = "; Path=/; Max-Age="@;
    assert(m.skip(m.len() - "Max-Age="@.len()) =~= "Max-Age="@);
    assert(end.take(1) =~= ";"@);
    access_laws::holds_between(
        cookies::SESSION_COOKIE@ + "="@ + sid,
        m,
        text::decimal(ttl as nat),
        end,
        "Max-Age="@,
        ";"@,
    );
    let z = "Max-Age=0"@;
    let r = "=; Path=/; Max-Age=0; HttpOnly"@;
    assert(cookies::CSRF_COOKIE@ + r.take(11) + z + r.skip(20) =~= cookies::csrf_removed());
    let t = "=; Path=/; Max-Age=0; HttpOnly; SameSite=Lax"@;
    assert(cookies::SESSION_COOKIE@ + t.take(11) + z + t.skip(20) =~= cookies::session_removed());
    let u = "=; Path=/; Max-Age=0"@;
    assert(name + u.take(11) + z + Seq::<char>::empty() =~= cookies::github_removed(name));
}

// ---------------------------------------------------------------------------------------------
// Settings, keys, tokens and times
// ---------------------------------------------------------------------------------------------

/// What the environment sets counts; else the file does.
pub proof fn the_environment_comes_first(setting: Option<Seq<char>>, by: Option<Seq<char>>)
    ensures
        by is Some ==> crate::config::overridden(setting, by) == by,
        by is None ==> crate::config::overridden(setting, by) == setting,
{
}

/// A password matches a hash exactly where it does by Argon2, but for texts that ask for a degree of
/// parallelism of more than eight digits, which match nothing.
pub proof fn which_hashes_count(password: Seq<char>, hash: Seq<char>, i: int, j: int)
    ensures
        crypto::password_matches(password, hash) ==> crypto::argon2_matches(password, hash),
        0 <= i < text::split(hash, '$').len() && 0 <= j < text::split(text::split(hash, '$')[i], ',').len()
            && text::has_prefix(text::split(text::split(hash, '$')[i], ',')[j], "p="@) && text::split(
            text::split(hash, '$')[i],
            ',',
        )[j].len() > 10 ==> !crypto::password_matches(password, hash),
        crypto::argon2_matches(password, hash) && (forall|x: int, y: int|
            0 <= x < text::split(hash, '$').len() && 0 <= y < text::split(text::split(hash, '$')[x], ',').len()
                && text::has_prefix(#[trigger] text::split(text::split(hash, '$')[x], ',')[y], "p="@) ==> text::split(
                text::split(hash, '$')[x],
                ',',
            )[y].len() <= 10) ==> crypto::password_matches(password, hash),
{
    if 0 <= i < text::split(hash, '$').len() && 0 <= j < text::split(text::split(hash, '$')[i], ',').len()
        && crypto::password_matches(password, hash) {
        assert(crypto::small_field(text::split(hash, '$')[i]));
        assert(crypto::small_parameter(text::split(text::split(hash, '$')[i], ',')[j]));
    }
}

/// A random token of so many bytes has the length of their base64 form, of letters, digits, `-` and `_`.
pub proof fn what_random_tokens_look_like(t: Seq<char>, n: nat)
    requires
        crypto::token_text(t, n),
    ensures
        3 * t.len() >= 4 * n && t.len() == (4 * n + 2) / 3,
        forall|i: int| 0 <= i < t.len() ==> encoding::url_digit(#[trigger] t[i]),
{
    let b = choose|b: Seq<u8>| b.len() == n && #[trigger] encoding::base64(b, true) == t;
    encoding::b64url_len(b);
    encoding::b64url_is_plain(b);
}

/// A key that is generated is the one in the text that comes with it; without a text, or without a key in it,
/// there is none. No key is taken whose second prime is much longer than the first.
pub proof fn which_keys_are_taken(pem: Option<Seq<char>>, text: Seq<char>)
    ensures
        crypto::generated_key(pem) matches Some(k) ==> pem == Some(k.1) && crypto::key_of_pem(k.1) == Some(k.0),
        pem matches Some(p) ==> crypto::key_of_pem(p) is Some ==> crypto::generated_key(pem) is Some,
        crypto::key_of_pem(text) matches Some(k) ==> (crypto::rsa_prime_bits(k.pem) matches Some(b) && b.1 <= b.0 + 40),
{
}

/// The time is what the clock says, and zero where that is before the start of 1970.
pub proof fn what_time_it_is(reading: u64)
    ensures
        crate::tokens::epoch_of(Some(reading)) == reading,
        crate::tokens::epoch_of(None) == 0,
{
}

// ---------------------------------------------------------------------------------------------
// Registering clients
// ---------------------------------------------------------------------------------------------

/// Whether a redirect URI can be kept: it is not empty, stands on one line and has no white space around it.
pub open spec fn keepable(u: Seq<char>) -> bool {
    u.len() > 0 && !u.contains('\n') && !text::white_space(u[0]) && !text::white_space(u.last())
}

/// Whether a registration is one that is taken.
pub open spec fn client_request_stands(body: ClientRegistration) -> bool {
    let uris = text::list_view(body.redirect_uris@);
    let name = body.client_name@;
    &&& uris.len() > 0
    &&& forall|i: int| 0 <= i < uris.len() ==> keepable(#[trigger] uris[i])
    &&& !name.contains('<') && !name.contains('>') && !name.contains('&') && !name.contains('"')
}

proof fn keepable_is_storable(u: Seq<char>)
    ensures
        keepable(u) <==> oidc::storable_uri(u),
{
    if keepable(u) {
        text_laws::trimmed_texts_stay(u);
    }
    if oidc::storable_uri(u) {
        text_laws::trimming_takes_white_space(u);
    }
}

/// A client registers itself with redirect URIs and a plain name: it is told its identifier, its name and
/// its scopes, and that it needs no secret. Else nothing changes.
pub proof fn when_clients_are_registered(state: StateV, body: ClientRegistration, token: Seq<char>, now: u64)
    requires
        state.store.reachable,
        now <= store_laws::last_time(),
        forall|i: int|
            0 <= i < state.store.tables.clients.len() ==> (#[trigger] state.store.tables.clients[i]).client_id
                != "dcr_"@ + token,
    ensures
        ({
            let out = oidc::register_client_outcome(state, body, token, now);
            &&& account_laws::gives_nothing(out.1)
            &&& !client_request_stands(body) ==> out.1.status == 400 && out.0 == state
            &&& body.redirect_uris@.len() == 0 ==> said(out.1, "error"@) == Some(JsonV::Str("invalid_redirect_uri"@))
            &&& out.0.store.tables == (tables::Tables {
                clients: out.0.store.tables.clients,
                ..state.store.tables
            })
            &&& client_request_stands(body) ==> {
                &&& out.1.status == 201
                &&& said(out.1, "client_id"@) == Some(JsonV::Str("dcr_"@ + token))
                &&& said(out.1, "client_name"@) == Some(JsonV::Str(body.client_name@))
                &&& said(out.1, "token_endpoint_auth_method"@) == Some(JsonV::Str("none"@))
                &&& lists(said(out.1, "redirect_uris"@), text::list_view(body.redirect_uris@))
                &&& out.0.store.with_client("dcr_"@ + token) matches Some(c) && {
                    &&& c.secret_hash is None
                    &&& c.name == body.client_name@
                    &&& c.redirect_uris == text::list_view(body.redirect_uris@)
                    &&& c.scopes == text::join(oidc::registered_scopes(body.scope@), " "@)
                    &&& c.registration_type == "dynamic"@
                    &&& said(out.1, "scope"@) == Some(JsonV::Str(c.scopes))
                }
            }
        }),
{
    let uris = text::list_view(body.redirect_uris@);
    let out = oidc::register_client_outcome(state, body, token, now);
    let c = oidc::registration(body, token, now);
    store_laws::when_rows_are_taken(state.store, c);
    assert(oidc::storable_uris(uris) <==> uris.len() > 0 && forall|i: int|
        0 <= i < uris.len() ==> keepable(#[trigger] uris[i])) by {
        assert forall|i: int| 0 <= i < uris.len() implies (keepable(#[trigger] uris[i]) <==> oidc::storable_uri(
            uris[i],
        )) by {
            keepable_is_storable(uris[i]);
        }
        if oidc::storable_uris(uris) {
            assert forall|i: int| 0 <= i < uris.len() implies keepable(#[trigger] uris[i]) by {
                assert(oidc::storable_uri(uris[i]));
            }
        }
    }
    json::member_of_pair(seq![("error"@, JsonV::Str("invalid_redirect_uri"@))], 0);
    if client_request_stands(body) {
        crate::guarantees::registered_client_is_found(state, body, token, now);
        let scope = text::join(oidc::registered_scopes(body.scope@), " "@);
        let p = oidc::registered_members("dcr_"@ + token, body.client_name@, uris, scope);
        reveal_strlit("client_id");
        reveal_strlit("client_name");
        reveal_strlit("redirect_uris");
        reveal_strlit("scope");
        reveal_strlit("token_endpoint_auth_method");
        assert("client_id"@.len() == 9 && "client_name"@.len() == 11 && "redirect_uris"@.len() == 13);
        assert("scope"@.len() == 5 && "token_endpoint_auth_method"@.len() == 26);
        json::member_of_pair(p, 0);
        json::member_of_pair(p, 1);
        json::member_of_pair(p, 2);
        json::member_of_pair(p, 3);
        json::member_of_pair(p, 4);
    }
}

/// A client that registers itself may ask for those of the scopes it named that are standard ones, and for
/// no others but standard ones.
pub proof fn which_scopes_clients_get(body: ClientRegistration, w: Seq<char>)
    ensures
        oidc::registered_scopes(body.scope@).contains(w) <==> text::split(body.scope@, ' ').contains(w) && (w
            == "openid"@ || w == "profile"@ || w == "email"@ || w == "offline_access"@),
{
    let p = |s: Seq<char>| crate::authorize::standard_scope(s);
    tables::kept(text::split(body.scope@, ' '), p);
    assert(p(w) == crate::authorize::standard_scope(w));
}

} // verus!
