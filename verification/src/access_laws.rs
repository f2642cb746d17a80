//! What a client gets, for whom, and what it needs for it.

use crate::account_laws;
use crate::authorize;
use crate::authorize::{ConsentForm, QueryV};
use crate::cookies;
use crate::crypto;
use crate::encoding;
use crate::grants;
use crate::grants::TokenRequest;
use crate::guarantees;
use crate::http::{BodyV, HeadersV, ReplyV, StateV};
use crate::json;
use crate::json::JsonV;
use crate::laws;
use crate::pages;
use crate::rows::{AuthCodeV, CodeRowV, ConsentV, RefreshTokenV, UserV};
use crate::store;
use crate::store_laws;
use crate::tables;
use crate::tables::{ChangeV, Tables};
use crate::text;
use crate::text_laws;
use crate::tokens;
use vstd::prelude::*;
use vstd::string::*;
use vstd::utf8::*;

verus! {

// ---------------------------------------------------------------------------------------------
// Words of the laws
// ---------------------------------------------------------------------------------------------

/// What a JSON reply says under a name.
pub open spec fn said(r: ReplyV, key: Seq<char>) -> Option<JsonV> {
    match r.body {
        BodyV::Json(v) => json::member(v, key),
        _ => None,
    }
}

/// Whether a request for tokens is refused with this error, and no cache keeps that.
pub open spec fn refuses(r: ReplyV, error: Seq<char>) -> bool {
    &&& r.status == 400
    &&& account_laws::gives_nothing(r)
    &&& r.cache_control == Some("no-store"@)
    &&& said(r, "error"@) == Some(JsonV::Str(error))
    &&& said(r, "access_token"@) is None
    &&& said(r, "refresh_token"@) is None
    &&& said(r, "id_token"@) is None
}

/// The scope of a query: `openid` where it names none.
pub open spec fn asked_scope(q: QueryV) -> Seq<char> {
    if q.scope.len() == 0 {
        "openid"@
    } else {
        q.scope
    }
}

/// What the client's `state` adds to the address that the browser is sent to.
pub open spec fn state_back(q: QueryV) -> Seq<char> {
    match q.state {
        Some(st) => "&state="@ + encoding::url_encoded(st),
        None => Seq::empty(),
    }
}

/// Whether the browser is sent back to the client with an error, and with the client's `state`.
pub open spec fn tells_client(r: ReplyV, q: QueryV, error: Seq<char>) -> bool {
    &&& r.status == 303
    &&& r.cookies.len() == 0
    &&& exists|d: Seq<char>|
        r.location == Some(
            q.redirect_uri + "?error="@ + error + "&error_description="@ + #[trigger] encoding::url_encoded(d)
                + state_back(q),
        )
}

/// Whether the browser is sent back to the client with a code, and with the client's `state`.
pub open spec fn brings_code(r: ReplyV, q: QueryV, code: Seq<char>) -> bool {
    &&& r.status == 303
    &&& r.cookies.len() == 0
    &&& r.location == Some(
        q.redirect_uri + (if q.redirect_uri.contains('?') {
            "&"@
        } else {
            "?"@
        }) + "code="@ + encoding::url_encoded(code) + state_back(q),
    )
}

/// The row of a code that was issued for a query: for the person, the client, the redirect URI, the scope,
/// the challenge and the nonce of the query, unused, and good for five minutes.
pub open spec fn issued_row(user_id: Seq<char>, q: QueryV, code: Seq<char>, now: u64) -> CodeRowV {
    CodeRowV {
        code: AuthCodeV {
            code,
            client_id: q.client_id,
            redirect_uri: q.redirect_uri,
            scope: asked_scope(q),
            user_id,
            code_challenge: q.code_challenge,
            code_challenge_meth: q.code_challenge_method,
            nonce: q.nonce,
            issued_at: now,
            expires_at: (now + 300) as u64,
        },
        used: false,
    }
}

/// Whether a code can be stored now.
pub open spec fn code_fits(state: StateV, code: Seq<char>, now: u64) -> bool {
    &&& state.store.reachable
    &&& now + 300 <= store_laws::last_time()
    &&& forall|i: int|
        0 <= i < state.store.tables.codes.len() ==> (#[trigger] state.store.tables.codes[i]).code.code != code
}

proof fn fitting_code_is_taken(state: StateV, user: UserV, q: QueryV, code: Seq<char>, now: u64)
    requires
        code_fits(state, code, now),
    ensures
        state.store.accepts(ChangeV::InsertAuthCode { auth_code: authorize::code_for(user, q, code, now) }),
        authorize::code_for(user, q, code, now) == issued_row(user.id, q, code, now).code,
{
    store_laws::when_rows_are_taken(
        state.store,
        ChangeV::InsertAuthCode { auth_code: authorize::code_for(user, q, code, now) },
    );
}

/// Issuing a code stores it and sends the browser back with it.
proof fn issuing(state: StateV, user: UserV, q: QueryV, code: Seq<char>, now: u64)
    ensures
        ({
            let out = authorize::issue_outcome(state, user, q, code, now);
            let a = state.store.tables;
            let b = out.0.store.tables;
            &&& code_fits(state, code, now) ==> brings_code(out.1, q, code) && b == (Tables {
                codes: a.codes.push(issued_row(user.id, q, code, now)),
                ..a
            })
            &&& b.codes == a.codes || brings_code(out.1, q, code)
        }),
{
    let out = authorize::issue_outcome(state, user, q, code, now);
    reveal_strlit("&code=");
    reveal_strlit("?code=");
    reveal_strlit("code=");
    reveal_strlit("&");
    reveal_strlit("?");
    reveal_strlit("");
    assert("&code="@ =~= "&"@ + "code="@);
    assert("?code="@ =~= "?"@ + "code="@);
    assert(""@ =~= Seq::<char>::empty());
    let u = q.redirect_uri;
    let mark = if u.contains('?') {
        "&"@
    } else {
        "?"@
    };
    let e = encoding::url_encoded(code);
    assert(u + (mark + "code="@) + e + state_back(q) =~= u + mark + "code="@ + e + state_back(q));
    if code_fits(state, code, now) {
        fitting_code_is_taken(state, user, q, code, now);
    }
}

proof fn told(q: QueryV, error: Seq<char>, description: Seq<char>)
    ensures
        tells_client(authorize::error_redirect(q.redirect_uri, error, description, q.state), q, error),
{
    reveal_strlit("");
    assert(""@ =~= Seq::<char>::empty());
    let r = authorize::error_redirect(q.redirect_uri, error, description, q.state);
    assert(r.location == Some(
        q.redirect_uri + "?error="@ + error + "&error_description="@ + encoding::url_encoded(description)
            + state_back(q),
    ));
}

// ---------------------------------------------------------------------------------------------
// Asking for access
// ---------------------------------------------------------------------------------------------

/// Whether the client of a query is registered, with its redirect URI.
pub open spec fn client_known(state: StateV, q: QueryV) -> bool {
    state.store.with_client(q.client_id) matches Some(c) && c.redirect_uris.contains(q.redirect_uri)
}

/// Whether every scope of a query is a standard one or one of the client's own.
pub open spec fn scopes_known(state: StateV, q: QueryV) -> bool {
    state.store.with_client(q.client_id) matches Some(c) && forall|i: int|
        0 <= i < text::split(q.scope, ' ').len() ==> {
            let s = #[trigger] text::split(q.scope, ' ')[i];
            s == "openid"@ || s == "profile"@ || s == "email"@ || s == "offline_access"@ || text::split(
                c.scopes,
                ' ',
            ).contains(s)
        }
}

/// Whether a query is one that a client may make.
pub open spec fn query_stands(state: StateV, q: QueryV) -> bool {
    &&& client_known(state, q)
    &&& q.response_type == "code"@
    &&& scopes_known(state, q)
    &&& q.code_challenge is Some <==> q.code_challenge_method == Some("S256"@)
}

/// A query that a client may not make is refused and changes nothing: on this site where the client or its
/// redirect URI is not known, and else at the client, with the reason.
pub proof fn bad_queries_are_refused(
    state: StateV,
    headers: HeadersV,
    q: QueryV,
    fresh: Seq<char>,
    code: Seq<char>,
    now: u64,
)
    requires
        !query_stands(state, q),
    ensures
        ({
            let out = authorize::authorize_outcome(state, headers, q, fresh, code, now);
            &&& out.0 == state
            &&& !client_known(state, q) ==> out.1.status == 400 && account_laws::gives_nothing(out.1)
            &&& client_known(state, q) && q.response_type != "code"@ ==> tells_client(
                out.1,
                q,
                "unsupported_response_type"@,
            )
            &&& client_known(state, q) && q.response_type == "code"@ && !scopes_known(state, q) ==> tells_client(
                out.1,
                q,
                "invalid_scope"@,
            )
            &&& client_known(state, q) && q.response_type == "code"@ && scopes_known(state, q) ==> tells_client(
                out.1,
                q,
                "invalid_request"@,
            )
        }),
{
    told(q, "unsupported_response_type"@, "only code is supported"@);
    told(q, "invalid_scope"@, "scope not allowed"@);
    told(q, "invalid_request"@, "PKCE S256 required when code_challenge present"@);
}

/// Whoever is not signed in is sent to sign in, and comes back with the same query.
pub proof fn strangers_sign_in_first(
    state: StateV,
    headers: HeadersV,
    q: QueryV,
    fresh: Seq<char>,
    code: Seq<char>,
    now: u64,
)
    requires
        query_stands(state, q),
        cookies::signed_in(state, headers, now) is None,
    ensures
        ({
            let out = authorize::authorize_outcome(state, headers, q, fresh, code, now);
            &&& out.0 == state
            &&& out.1.status == 303
            &&& out.1.cookies.len() == 0
            &&& exists|back: Seq<char>|
                out.1.location == Some("/login?next="@ + #[trigger] encoding::url_encoded(back))
                    && authorize::parsed_query(text::after_last(back, '?')) == Some(q)
                    && account_laws::on_site(back)
        }),
{
    authorize::query_round_trip(q);
    let back = authorize::authorize_url(q);
    let out = authorize::authorize_outcome(state, headers, q, fresh, code, now);
    assert(out.1.location == Some("/login?next="@ + encoding::url_encoded(back)));
    url_is_on_site(q);
}

/// The address of a query is a path on this site.
proof fn url_is_on_site(q: QueryV)
    ensures
        account_laws::on_site(authorize::authorize_url(q)),
{
    authorize::authorize_url_is_plain(q);
}

/// A code is issued at once exactly for a person who has approved this client for exactly this scope. One
/// who has denied it is not asked again, and the client is told. Everyone else is asked: nothing changes
/// and the browser stays.
pub proof fn codes_need_consent(
    state: StateV,
    headers: HeadersV,
    q: QueryV,
    fresh: Seq<char>,
    code: Seq<char>,
    now: u64,
    user: UserV,
)
    requires
        query_stands(state, q),
        cookies::signed_in(state, headers, now) == Some(user),
    ensures
        ({
            let out = authorize::authorize_outcome(state, headers, q, fresh, code, now);
            let decision = state.store.decision(user.id, q.client_id, q.scope);
            &&& decision == Some("approved"@) && code_fits(state, code, now) ==> {
                &&& brings_code(out.1, q, code)
                &&& out.0.store.tables == (Tables {
                    codes: state.store.tables.codes.push(issued_row(user.id, q, code, now)),
                    ..state.store.tables
                })
            }
            &&& decision == Some("denied"@) ==> out.0 == state && tells_client(out.1, q, "access_denied"@)
            &&& decision != Some("approved"@) && decision != Some("denied"@) ==> {
                &&& out.0 == state
                &&& out.1.status == 200
                &&& out.1.location is None
                &&& out.1.body is Html
            }
        }),
{
    reveal_strlit("approved");
    reveal_strlit("denied");
    assert("approved"@.len() == 8 && "denied"@.len() == 6);
    issuing(state, user, q, code, now);
    told(q, "access_denied"@, "user denied"@);
}

/// No code comes of a query without all of this: a query that the client may make, a person who is signed
/// in, and that person's approval of this client for exactly this scope.
pub proof fn no_code_without_consent(
    state: StateV,
    headers: HeadersV,
    q: QueryV,
    fresh: Seq<char>,
    code: Seq<char>,
    now: u64,
)
    requires
        authorize::authorize_outcome(state, headers, q, fresh, code, now).0.store.tables != state.store.tables,
    ensures
        query_stands(state, q),
        cookies::signed_in(state, headers, now) matches Some(u) && state.store.decision(u.id, q.client_id, q.scope)
            == Some("approved"@),
{
}

/// The consent page names the client, the scope and the person, carries the whole query and the token of
/// the form, and sets the cookie that the token is compared with.
pub proof fn what_the_consent_page_holds(
    state: StateV,
    headers: HeadersV,
    q: QueryV,
    fresh: Seq<char>,
    code: Seq<char>,
    now: u64,
    user: UserV,
)
    requires
        query_stands(state, q),
        cookies::signed_in(state, headers, now) == Some(user),
        state.store.decision(user.id, q.client_id, q.scope) is None,
    ensures
        ({
            let out = authorize::authorize_outcome(state, headers, q, fresh, code, now);
            let csrf = cookies::csrf_for(headers, fresh);
            &&& out.1.body matches BodyV::Html(page) && {
                &&& account_laws::holds(page, state.store.with_client(q.client_id)->0.name)
                &&& account_laws::holds(page, asked_scope(q))
                &&& account_laws::holds(page, pages::escaped(user.email))
                &&& account_laws::holds(page, "name=\"csrf\" value=\""@ + csrf + "\""@)
                &&& exists|t: Seq<char>| #[trigger]
                    account_laws::holds(page, "name=\"params\" value=\""@ + t + "\""@) && authorize::hidden_query(t)
                        == Some(q)
            }
            &&& out.1.cookies.len() == 1 && text::has_prefix(
                out.1.cookies[0],
                "argus_csrf"@ + "="@ + csrf + ";"@,
            )
        }),
{
    authorize::query_round_trip(q);
    let out = authorize::authorize_outcome(state, headers, q, fresh, code, now);
    let name = state.store.with_client(q.client_id)->0.name;
    let csrf = cookies::csrf_for(headers, fresh);
    let scope = asked_scope(q);
    let email = pages::escaped(user.email);
    let t = encoding::url_encoded(authorize::authorize_url(q));
    let page = out.1.body->Html_0;
    let head = pages::PAGE_START@ + "Consent"@ + pages::PAGE_STYLE@ + "Consent"@ + "</h1>"@;
    let n = "name=\"csrf\" value=\""@;
    let m = "name=\"params\" value=\""@;
    let quote = "\""@;
    let b1 = authorize::CONSENT_START@ + name;
    let b2 = b1 + authorize::CONSENT_SCOPES@ + scope;
    let b3 = b2 + authorize::CONSENT_USER@ + email;
    let b4 = b3 + authorize::CONSENT_CSRF@ + csrf + authorize::CONSENT_PARAMS@;
    let body = b4 + t + authorize::CONSENT_END@;
    consent_parts_fit();
    holds_last(authorize::CONSENT_START@, name);
    holds_more(b1, authorize::CONSENT_SCOPES@, name);
    holds_more(b1 + authorize::CONSENT_SCOPES@, scope, name);
    holds_last(b1 + authorize::CONSENT_SCOPES@, scope);
    holds_on(b2, authorize::CONSENT_USER@, email, name);
    holds_on(b2, authorize::CONSENT_USER@, email, scope);
    holds_last(b2 + authorize::CONSENT_USER@, email);
    holds_on(b3, authorize::CONSENT_CSRF@, csrf, name);
    holds_on(b3, authorize::CONSENT_CSRF@, csrf, scope);
    holds_on(b3, authorize::CONSENT_CSRF@, csrf, email);
    let b3c = b3 + authorize::CONSENT_CSRF@ + csrf;
    holds_more(b3c, authorize::CONSENT_PARAMS@, name);
    holds_more(b3c, authorize::CONSENT_PARAMS@, scope);
    holds_more(b3c, authorize::CONSENT_PARAMS@, email);
    holds_between(b3, authorize::CONSENT_CSRF@, csrf, authorize::CONSENT_PARAMS@, n, quote);
    holds_on(b4, t, authorize::CONSENT_END@, name);
    holds_on(b4, t, authorize::CONSENT_END@, scope);
    holds_on(b4, t, authorize::CONSENT_END@, email);
    holds_on(b4, t, authorize::CONSENT_END@, n + csrf + quote);
    holds_between(b3c, authorize::CONSENT_PARAMS@, t, authorize::CONSENT_END@, m, quote);
    holds_inside(head, body, "</div></body></html>"@, name);
    holds_inside(head, body, "</div></body></html>"@, scope);
    holds_inside(head, body, "</div></body></html>"@, email);
    holds_inside(head, body, "</div></body></html>"@, n + csrf + quote);
    holds_inside(head, body, "</div></body></html>"@, m + t + quote);
    assert(page == head + body + "</div></body></html>"@);
    csrf_cookie_starts(csrf);
}

/// What stands last in a text is in it.
pub proof fn holds_last(a: Seq<char>, x: Seq<char>)
    ensures
        account_laws::holds(a + x, x),
{
    assert(a + x + Seq::<char>::empty() =~= a + x);
}

/// What is in a text is in a longer one.
pub proof fn holds_more(t: Seq<char>, b: Seq<char>, x: Seq<char>)
    requires
        account_laws::holds(t, x),
    ensures
        account_laws::holds(t + b, x),
{
    let (p, q) = choose|p: Seq<char>, q: Seq<char>| #[trigger] (p + x + q) == t;
    assert(p + x + (q + b) =~= t + b);
}

/// What is in a text is in a longer one.
pub proof fn holds_on(t: Seq<char>, a: Seq<char>, b: Seq<char>, x: Seq<char>)
    requires
        account_laws::holds(t, x),
    ensures
        account_laws::holds(t + a + b, x),
{
    holds_more(t, a, x);
    holds_more(t + a, b, x);
}

/// What is in a text is in one around it.
pub proof fn holds_inside(a: Seq<char>, t: Seq<char>, b: Seq<char>, x: Seq<char>)
    requires
        account_laws::holds(t, x),
    ensures
        account_laws::holds(a + t + b, x),
{
    let (p, q) = choose|p: Seq<char>, q: Seq<char>| #[trigger] (p + x + q) == t;
    assert((a + p) + x + (q + b) =~= a + t + b);
}

/// What stands between two texts is in the whole with the end of the first and the start of the second.
pub proof fn holds_between(z: Seq<char>, c: Seq<char>, x: Seq<char>, p: Seq<char>, n: Seq<char>, q: Seq<char>)
    requires
        n.len() <= c.len() && c.skip(c.len() - n.len()) == n,
        text::has_prefix(p, q),
    ensures
        account_laws::holds(z + c + x + p, n + x + q),
{
    let c1 = c.take(c.len() - n.len());
    let p1 = p.skip(q.len() as int);
    assert(c =~= c1 + n);
    assert(p =~= q + p1);
    assert((z + c1) + (n + x + q) + p1 =~= z + c + x + p);
}

proof fn consent_parts_fit()
    ensures
        ({
            let c = authorize::CONSENT_CSRF@;
            let p = authorize::CONSENT_PARAMS@;
            let n = "name=\"csrf\" value=\""@;
            let m = "name=\"params\" value=\""@;
            &&& n.len() <= c.len() && c.skip(c.len() - n.len()) == n
            &&& m.len() <= p.len() && p.skip(p.len() - m.len()) == m
            &&& text::has_prefix(p, "\""@)
            &&& text::has_prefix(authorize::CONSENT_END@, "\""@)
        }),
{
    reveal_strlit("name=\"csrf\" value=\"");
    reveal_strlit("name=\"params\" value=\"");
    reveal_strlit("\"");
    reveal_strlit(
        "</p><form method=\"post\" action=\"/authorize\"><input type=\"hidden\" name=\"csrf\" value=\"",
    );
    reveal_strlit("\"><input type=\"hidden\" name=\"params\" value=\"");
    reveal_strlit(
        "\"><button name=\"decision\" value=\"approve\">Approve</button><button name=\"decision\" value=\"deny\" style=\"background:#334155\">Deny</button></form>",
    );
    let c = authorize::CONSENT_CSRF@;
    let p = authorize::CONSENT_PARAMS@;
    let n = "name=\"csrf\" value=\""@;
    let m = "name=\"params\" value=\""@;
    assert(c.skip(c.len() - n.len()) =~= n);
    assert(p.skip(p.len() - m.len()) =~= m);
    assert(p.take(1) =~= "\""@);
    assert(authorize::CONSENT_END@.take(1) =~= "\""@);
}

/// The cookie of a form's token starts with its name and its value.
pub proof fn csrf_cookie_starts(csrf: Seq<char>)
    ensures
        text::has_prefix(cookies::csrf_cookie(csrf), "argus_csrf"@ + "="@ + csrf + ";"@),
{
    reveal_strlit(";");
    reveal_strlit("; Path=/; Max-Age=3600; HttpOnly; SameSite=Lax; Secure");
    let p = "argus_csrf"@ + "="@ + csrf + ";"@;
    let c = cookies::csrf_cookie(csrf);
    assert(c.take(p.len() as int) =~= p);
}

// ---------------------------------------------------------------------------------------------
// Reading a query
// ---------------------------------------------------------------------------------------------

/// Whether a piece of a query has this key.
pub open spec fn has_key(piece: Seq<char>, key: Seq<char>) -> bool {
    text::split_once(piece, '=') matches Some(kv) && kv.0 == key
}

/// Whether a piece of a query gives this key this value.
pub open spec fn gives_value(piece: Seq<char>, key: Seq<char>, v: Seq<char>) -> bool {
    text::split_once(piece, '=') matches Some(kv) && kv.0 == key && encoding::url_decoded(kv.1) == Some(v)
}

/// Whether a value is the one that the pieces of a query give to a key: the last one, where there is one.
pub open spec fn is_value(pieces: Seq<Seq<char>>, key: Seq<char>, value: Option<Seq<char>>) -> bool {
    match value {
        Some(v) => exists|k: int|
            0 <= k < pieces.len() && gives_value(#[trigger] pieces[k], key, v) && forall|j: int|
                k < j < pieces.len() ==> !has_key(#[trigger] pieces[j], key),
        None => forall|j: int| 0 <= j < pieces.len() ==> !has_key(#[trigger] pieces[j], key),
    }
}

proof fn values_are_read(pieces: Seq<Seq<char>>, key: Seq<char>)
    ensures
        authorize::query_pairs(pieces) matches Some(m) ==> is_value(pieces, key, authorize::param(m, key)),
        authorize::query_pairs(pieces) is None <==> exists|k: int|
            0 <= k < pieces.len() && unreadable(#[trigger] pieces[k]),
    decreases pieces.len(),
{
    if pieces.len() > 0 {
        let d = pieces.drop_last();
        let last = pieces.last();
        values_are_read(d, key);
        assert(pieces[pieces.len() - 1] == last);
        if authorize::query_pairs(d) is None {
            let k = choose|k: int| 0 <= k < d.len() && unreadable(#[trigger] d[k]);
            assert(unreadable(pieces[k]));
        } else if unreadable(last) {
            assert(unreadable(pieces[pieces.len() - 1]));
        } else {
            assert forall|k: int| 0 <= k < pieces.len() implies !unreadable(#[trigger] pieces[k]) by {
                if k < d.len() {
                    assert(d[k] == pieces[k]);
                }
            }
            let m = authorize::query_pairs(d)->0;
            let n = authorize::query_pairs(pieces)->0;
            if has_key(last, key) {
                let v = authorize::param(n, key)->0;
                assert(gives_value(pieces[pieces.len() - 1], key, v));
            } else {
                assert(authorize::param(n, key) == authorize::param(m, key));
                match authorize::param(m, key) {
                    Some(v) => {
                        let k = choose|k: int|
                            0 <= k < d.len() && gives_value(#[trigger] d[k], key, v) && forall|j: int|
                                k < j < d.len() ==> !has_key(#[trigger] d[j], key);
                        assert(gives_value(pieces[k], key, v));
                        assert forall|j: int| k < j < pieces.len() implies !has_key(#[trigger] pieces[j], key) by {
                            if j < d.len() {
                                assert(d[j] == pieces[j]);
                            }
                        }
                    },
                    None => {
                        assert forall|j: int| 0 <= j < pieces.len() implies !has_key(#[trigger] pieces[j], key) by {
                            if j < d.len() {
                                assert(d[j] == pieces[j]);
                            }
                        }
                    },
                }
            }
        }
    }
}

/// Whether a piece of a query has a value that is not percent-encoded UTF-8.
pub open spec fn unreadable(piece: Seq<char>) -> bool {
    text::split_once(piece, '=') matches Some(kv) && encoding::url_decoded(kv.1) is None
}

/// An optional text that is missing counts as the empty one.
pub open spec fn some_text(s: Seq<char>, o: Option<Seq<char>>) -> bool {
    match o {
        Some(t) => s == t,
        None => s.len() == 0,
    }
}

/// A query is read parameter by parameter: each has the last value that the query gives it, decoded. It
/// cannot be read where a value cannot be decoded.
pub proof fn queries_are_read(qs: Seq<char>)
    ensures
        ({
            let pieces = text::split(qs, '&');
            &&& authorize::parsed_query(qs) is None <==> exists|k: int|
                0 <= k < pieces.len() && unreadable(#[trigger] pieces[k])
            &&& authorize::parsed_query(qs) matches Some(q) ==> {
                &&& is_value(pieces, "state"@, q.state)
                &&& is_value(pieces, "nonce"@, q.nonce)
                &&& is_value(pieces, "code_challenge"@, q.code_challenge)
                &&& is_value(pieces, "code_challenge_method"@, q.code_challenge_method)
                &&& exists|o: Option<Seq<char>>| #[trigger]
                    is_value(pieces, "response_type"@, o) && some_text(q.response_type, o)
                &&& exists|o: Option<Seq<char>>| #[trigger]
                    is_value(pieces, "client_id"@, o) && some_text(q.client_id, o)
                &&& exists|o: Option<Seq<char>>| #[trigger]
                    is_value(pieces, "redirect_uri"@, o) && some_text(q.redirect_uri, o)
                &&& exists|o: Option<Seq<char>>| #[trigger] is_value(pieces, "scope"@, o) && some_text(q.scope, o)
            }
        }),
{
    let pieces = text::split(qs, '&');
    values_are_read(pieces, "state"@);
    values_are_read(pieces, "nonce"@);
    values_are_read(pieces, "code_challenge"@);
    values_are_read(pieces, "code_challenge_method"@);
    values_are_read(pieces, "response_type"@);
    values_are_read(pieces, "client_id"@);
    values_are_read(pieces, "redirect_uri"@);
    values_are_read(pieces, "scope"@);
    match authorize::query_pairs(pieces) {
        Some(m) => {
            assert(is_value(pieces, "response_type"@, authorize::param(m, "response_type"@)));
            assert(is_value(pieces, "client_id"@, authorize::param(m, "client_id"@)));
            assert(is_value(pieces, "redirect_uri"@, authorize::param(m, "redirect_uri"@)));
            assert(is_value(pieces, "scope"@, authorize::param(m, "scope"@)));
        },
        None => {},
    }
}

// ---------------------------------------------------------------------------------------------
// Deciding
// ---------------------------------------------------------------------------------------------

/// Whether a decision of this person, about this client and exactly this scope, is stored in place of an
/// earlier one, and no other decision is touched.
pub open spec fn decided(
    a: StateV,
    b: StateV,
    user_id: Seq<char>,
    q: QueryV,
    decision: Seq<char>,
) -> bool {
    &&& b.store.decision(user_id, q.client_id, asked_scope(q)) == Some(decision)
    &&& forall|u: Seq<char>, c: Seq<char>, s: Seq<char>|
        u != user_id || c != q.client_id || s != asked_scope(q) ==> #[trigger] b.store.decision(u, c, s)
            == a.store.decision(u, c, s)
}

/// Approving stores the approval and issues a code; any other answer stores a denial, issues none, and
/// tells the client. The decision is about the person who is signed in and the query that the page
/// carried.
pub proof fn what_a_decision_does(
    state: StateV,
    headers: HeadersV,
    f: ConsentForm,
    code: Seq<char>,
    now: u64,
    user: UserV,
    q: QueryV,
)
    requires
        account_laws::token_comes_back(headers, f.csrf@),
        cookies::signed_in(state, headers, now) == Some(user),
        f.params@ == encoding::url_encoded(authorize::authorize_url(q)),
        client_known(state, q),
        now <= store_laws::last_time(),
        state.store.reachable,
    ensures
        ({
            let out = authorize::consent_outcome(state, headers, f, code, now);
            let a = state.store.tables;
            let b = out.0.store.tables;
            &&& f.decision@ == "approve"@ ==> decided(state, out.0, user.id, q, "approved"@)
            &&& f.decision@ == "approve"@ && code_fits(state, code, now) ==> brings_code(out.1, q, code) && b.codes
                == a.codes.push(issued_row(user.id, q, code, now))
            &&& f.decision@ != "approve"@ ==> {
                &&& decided(state, out.0, user.id, q, "denied"@)
                &&& b.codes == a.codes
                &&& tells_client(out.1, q, "access_denied"@)
            }
            &&& b.users == a.users && b.sessions == a.sessions && b.clients == a.clients
            &&& b.refreshes == a.refreshes && b.agents == a.agents
        }),
{
    authorize::query_round_trip(q);
    let approved = f.decision@ == "approve"@;
    let decision = if approved {
        "approved"@
    } else {
        "denied"@
    };
    let c = store::new_consent(user.id, q.client_id, asked_scope(q), decision, now);
    let s1 = state.step(c);
    laws::stored_decision_counts(state.store, user.id, q.client_id, asked_scope(q), decision, now);
    assert forall|u: Seq<char>, k: Seq<char>, s: Seq<char>|
        u != user.id || k != q.client_id || s != asked_scope(q) implies #[trigger] s1.store.decision(u, k, s)
        == state.store.decision(u, k, s) by {
        store_laws::other_rows_stay(state.store, c, u, k, s, now);
    }
    let s2 = s1.note(
        if approved {
            "consent_approved"@
        } else {
            "consent_denied"@
        },
        Some(user.id),
        authorize::consent_detail(q.client_id, asked_scope(q)),
        now,
    );
    assert(s2.store.tables == s1.store.tables);
    issuing(s2, user, q, code, now);
    told(q, "access_denied"@, "user denied"@);
    let out = authorize::consent_outcome(state, headers, f, code, now);
    assert(out == authorize::decide_outcome(state, user, q, approved, code, now));
    assert(out.0.store.tables.consents == s1.store.tables.consents && out.0.store.reachable);
    assert forall|u: Seq<char>, k: Seq<char>, s: Seq<char>|
        u != user.id || k != q.client_id || s != asked_scope(q) implies #[trigger] out.0.store.decision(u, k, s)
        == state.store.decision(u, k, s) by {
        assert(s1.store.decision(u, k, s) == state.store.decision(u, k, s));
    }
    assert(out.0.store.decision(user.id, q.client_id, asked_scope(q)) == s1.store.decision(
        user.id,
        q.client_id,
        asked_scope(q),
    ));
}

/// What an error page says of a query: which part of it is not known here.
pub proof fn what_bad_queries_are_told(
    state: StateV,
    headers: HeadersV,
    q: QueryV,
    fresh: Seq<char>,
    code: Seq<char>,
    now: u64,
)
    ensures
        state.store.with_client(q.client_id) is None ==> authorize::authorize_outcome(
            state,
            headers,
            q,
            fresh,
            code,
            now,
        ).1 == pages::error_reply("Unknown client_id"@),
        state.store.with_client(q.client_id) matches Some(c) ==> !c.redirect_uris.contains(q.redirect_uri)
            ==> authorize::authorize_outcome(state, headers, q, fresh, code, now).1 == pages::error_reply(
            "redirect_uri is not registered for this client"@,
        ),
{
}

/// Without the token of the form, without a person who is signed in, or for a client or a redirect URI that
/// is not known, a decision changes nothing.
pub proof fn what_a_decision_needs(state: StateV, headers: HeadersV, f: ConsentForm, code: Seq<char>, now: u64)
    ensures
        ({
            let out = authorize::consent_outcome(state, headers, f, code, now);
            &&& !account_laws::token_comes_back(headers, f.csrf@) ==> out.0 == state && out.1.status == 400
                && account_laws::gives_nothing(out.1)
            &&& account_laws::token_comes_back(headers, f.csrf@) && cookies::signed_in(state, headers, now) is None
                ==> out.0 == state && out.1.status == 303 && out.1.location == Some("/login"@)
            &&& out.0 != state ==> {
                &&& account_laws::token_comes_back(headers, f.csrf@)
                &&& cookies::signed_in(state, headers, now) is Some
                &&& authorize::hidden_query(f.params@) matches Some(q) && client_known(state, q)
            }
            &&& out.0.store.tables.codes != state.store.tables.codes ==> f.decision@ == "approve"@
        }),
{
}

// ---------------------------------------------------------------------------------------------
// Codes
// ---------------------------------------------------------------------------------------------

/// No two of the names in a grant or in a refusal are the same.
pub proof fn grant_names_differ()
    ensures
        "access_token"@.len() == 12,
        "token_type"@.len() == 10 && "token_type"@[0] == 't',
        "expires_in"@.len() == 10 && "expires_in"@[0] == 'e',
        "exp"@.len() == 3,
        "scope"@.len() == 5 && "scope"@[0] == 's',
        "id_token"@.len() == 8 && "id_token"@[0] == 'i',
        "agent_id"@.len() == 8 && "agent_id"@[0] == 'a',
        "refresh_token"@.len() == 13,
        "error"@.len() == 5 && "error"@[0] == 'e',
        "error_description"@.len() == 17,
{
    reveal_strlit("access_token");
    reveal_strlit("token_type");
    reveal_strlit("expires_in");
    reveal_strlit("exp");
    reveal_strlit("scope");
    reveal_strlit("id_token");
    reveal_strlit("agent_id");
    reveal_strlit("refresh_token");
    reveal_strlit("error");
    reveal_strlit("error_description");
}

/// A refusal says which error there is, and gives no token.
pub proof fn what_a_refusal_says(error: Seq<char>, description: Seq<char>)
    ensures
        refuses(grants::refused(error, description), error),
        said(grants::refused(error, description), "error_description"@) == Some(JsonV::Str(description)),
{
    grant_names_differ();
    let p = seq![("error"@, JsonV::Str(error)), ("error_description"@, JsonV::Str(description))];
    json::member_of_pair(p, 0);
    json::member_of_pair(p, 1);
    json::member_of_no_pair(p, "access_token"@);
    json::member_of_no_pair(p, "refresh_token"@);
    json::member_of_no_pair(p, "id_token"@);
}

/// The access token for a person and a client.
pub open spec fn access_for(state: StateV, user: UserV, aud: Seq<char>, scope: Seq<char>, ttl: u64, now: u64) -> Result<
    (Seq<char>, u64),
    tokens::TokenError,
> {
    tokens::access_token(state.key, text::without_trailing(state.config.external_url, '/'), user, aud, scope, ttl, now)
}

/// Whether a reply gives this access token, for this scope and so long, and no cache keeps it.
pub open spec fn gives_access(r: ReplyV, token: Seq<char>, scope: Seq<char>, ttl: u64) -> bool {
    &&& r.status == 200
    &&& account_laws::gives_nothing(r)
    &&& r.cache_control == Some("no-store"@)
    &&& said(r, "access_token"@) == Some(JsonV::Str(token))
    &&& said(r, "token_type"@) == Some(JsonV::Str("Bearer"@))
    &&& said(r, "scope"@) == Some(JsonV::Str(scope))
    &&& said(r, "expires_in"@) == Some(JsonV::Num(ttl))
}

proof fn what_a_person_grant_says(
    access: Seq<char>,
    ttl: u64,
    exp: u64,
    scope: Seq<char>,
    id_token: Option<Seq<char>>,
    refresh: Option<Seq<char>>,
)
    ensures
        ({
            let r = grants::granted(grants::person_grant(access, ttl, exp, scope, id_token, refresh));
            &&& gives_access(r, access, scope, ttl)
            &&& said(r, "exp"@) == Some(JsonV::Num(exp))
            &&& said(r, "id_token"@) == match id_token {
                Some(t) => Some(JsonV::Str(t)),
                None => None,
            }
            &&& said(r, "refresh_token"@) == match refresh {
                Some(t) => Some(JsonV::Str(t)),
                None => None,
            }
        }),
{
    grant_names_differ();
    let p = grants::person_grant(access, ttl, exp, scope, id_token, refresh);
    json::member_of_pair(p, 0);
    json::member_of_pair(p, 1);
    json::member_of_pair(p, 2);
    json::member_of_pair(p, 3);
    json::member_of_pair(p, 4);
    match id_token {
        Some(t) => {
            assert(p[5] == ("id_token"@, JsonV::Str(t)));
            json::member_of_pair(p, 5);
        },
        None => {
            json::member_of_no_pair(p, "id_token"@);
        },
    }
    match refresh {
        Some(t) => {
            let n = p.len() - 1;
            assert(p[n] == ("refresh_token"@, JsonV::Str(t)));
            json::member_of_pair(p, n);
        },
        None => {
            json::member_of_no_pair(p, "refresh_token"@);
        },
    }
}

/// The name and the secret that a client gives: those of the header, or those of the form.
pub open spec fn client_gives(headers: HeadersV, f: TokenRequest, id: Seq<char>, secret: Seq<char>) -> bool {
    match cookies::basic(headers) {
        Some(c) => c.0 == id && c.1 == secret,
        None => f.client_id@ == id && f.client_secret@ == secret,
    }
}

/// Whether a client that has a secret gives it.
pub open spec fn secret_given(state: StateV, id: Seq<char>, secret: Seq<char>) -> bool {
    state.store.with_client(id) matches Some(c) ==> c.secret_hash matches Some(h) ==> crypto::argon2_matches(secret, h)
        && crypto::small_parallelism(h)
}

/// Whether a code with a challenge comes with the verifier of it.
pub open spec fn verifier_given(ac: AuthCodeV, verifier: Seq<char>) -> bool {
    ac.code_challenge matches Some(c) ==> c == encoding::base64(
        crypto::sha256_digest(encode_utf8(verifier)),
        true,
    )
}

/// Whether a code can be redeemed by this request, for this person.
pub open spec fn code_stands(state: StateV, headers: HeadersV, f: TokenRequest, now: u64, ac: AuthCodeV, user: UserV) -> bool {
    &&& state.store.redeemable(f.code@, now) == Some(ac)
    &&& ac.redirect_uri == f.redirect_uri@
    &&& exists|secret: Seq<char>| #[trigger]
        client_gives(headers, f, ac.client_id, secret) && secret_given(state, ac.client_id, secret)
    &&& verifier_given(ac, f.code_verifier@)
    &&& state.store.with_id(ac.user_id) == Some(user)
    &&& !user.disabled
}

/// A code that stands gives tokens: an access token for the person, the client and the whole scope of the
/// code; an identity token with the nonce of the code where `openid` is in the scope; and a refresh
/// token, which is stored for thirty days, where `offline_access` is. The code is spent.
pub proof fn a_code_gives_its_tokens(
    state: StateV,
    headers: HeadersV,
    f: TokenRequest,
    fresh: Seq<char>,
    now: u64,
    ac: AuthCodeV,
    user: UserV,
)
    requires
        f.grant_type@ == "authorization_code"@,
        code_stands(state, headers, f, now, ac, user),
        access_for(state, user, ac.client_id, ac.scope, state.config.access_token_ttl, now) is Ok,
    ensures
        ({
            let out = grants::token_outcome(state, headers, f, fresh, now);
            let ttl = state.config.access_token_ttl;
            let access = access_for(state, user, ac.client_id, ac.scope, ttl, now)->Ok_0;
            let id = tokens::id_token(
                state.key,
                text::without_trailing(state.config.external_url, '/'),
                user,
                ac.client_id,
                ac.nonce,
                ttl,
                now,
            );
            let offline = text::split(ac.scope, ' ').contains("offline_access"@) && f.refresh_token@.len() == 0;
            &&& gives_access(out.1, access.0, ac.scope, ttl)
            &&& said(out.1, "exp"@) == Some(JsonV::Num(access.1))
            &&& text::split(ac.scope, ' ').contains("openid"@) ==> said(out.1, "id_token"@) == match id {
                Ok(t) => Some(JsonV::Str(t)),
                Err(_) => None,
            }
            &&& !text::split(ac.scope, ' ').contains("openid"@) ==> said(out.1, "id_token"@) is None
            &&& offline ==> said(out.1, "refresh_token"@) == Some(JsonV::Str(fresh))
            &&& !offline ==> said(out.1, "refresh_token"@) is None && out.0.store.tables.refreshes
                == state.store.tables.refreshes
            &&& offline && refresh_fits(state, fresh, now) ==> out.0.store.tables.refreshes
                == state.store.tables.refreshes.push(refresh_row(fresh, user.id, ac.client_id, ac.scope, now))
            &&& forall|at: u64| (#[trigger] out.0.store.redeemable(f.code@, at)) is None
        }),
{
    guarantees::grant_types_differ();
    let secret = choose|secret: Seq<char>| #[trigger]
        client_gives(headers, f, ac.client_id, secret) && secret_given(state, ac.client_id, secret);
    let out = grants::token_outcome(state, headers, f, fresh, now);
    let ttl = state.config.access_token_ttl;
    let spent = StateV { store: store::after_redeeming(state.store, f.code@, now), ..state };
    let client = grants::client_named(headers, f);
    assert(client == (ac.client_id, secret));
    assert(grants::client_proves(spent, client.0, client.1));
    assert(spent.store.with_id(ac.user_id) == Some(user));
    let access = access_for(state, user, ac.client_id, ac.scope, ttl, now)->Ok_0;
    let offline = text::split(ac.scope, ' ').contains("offline_access"@) && f.refresh_token@.len() == 0;
    what_a_person_grant_says(
        access.0,
        ttl,
        access.1,
        ac.scope,
        grants::id_token_for(spent, user, ac.client_id, ac.scope, ac.nonce, now),
        if offline {
            Some(fresh)
        } else {
            None
        },
    );
    let c = store::new_refresh(fresh, user.id, ac.client_id, ac.scope, grants::REFRESH_TTL, now);
    if refresh_fits(state, fresh, now) {
        store_laws::when_rows_are_taken(spent.store, c);
    }
    assert forall|at: u64| (#[trigger] out.0.store.redeemable(f.code@, at)) is None by {
        laws::codes_are_redeemed_once(state.store, f.code@, now, at);
        laws::codes_are_redeemed_once(spent.store, f.code@, now, at);
        laws::spent_codes_stay_spent(spent.store, f.code@, c);
        laws::codes_are_redeemed_once(out.0.store, f.code@, now, at);
    }
}

/// The row of a refresh token that was given: good for thirty days, and not replaced.
pub open spec fn refresh_row(
    token: Seq<char>,
    user_id: Seq<char>,
    client_id: Seq<char>,
    scope: Seq<char>,
    now: u64,
) -> RefreshTokenV {
    RefreshTokenV {
        token,
        user_id,
        client_id,
        scope,
        issued_at: now,
        expires_at: (now + 30 * 24 * 3600) as u64,
        rotated_to: None,
    }
}

/// Whether a refresh token can be stored now.
pub open spec fn refresh_fits(state: StateV, token: Seq<char>, now: u64) -> bool {
    &&& state.store.reachable
    &&& now + 30 * 24 * 3600 <= store_laws::last_time()
    &&& forall|i: int|
        0 <= i < state.store.tables.refreshes.len() ==> (#[trigger] state.store.tables.refreshes[i]).token != token
}

/// A code gives tokens only if it stands, and a key that signs; else the request is refused with the reason
/// and gives no token. A code that was not live leaves all as it is, and one that was is spent.
pub proof fn what_a_code_takes(state: StateV, headers: HeadersV, f: TokenRequest, fresh: Seq<char>, now: u64)
    requires
        f.grant_type@ == "authorization_code"@,
    ensures
        ({
            let out = grants::token_outcome(state, headers, f, fresh, now);
            &&& out.1.status == 200 ==> exists|ac: AuthCodeV, user: UserV| #[trigger]
                code_stands(state, headers, f, now, ac, user)
            &&& out.1.status != 200 ==> refuses(out.1, "invalid_grant"@) || refuses(out.1, "invalid_client"@)
                || refuses(out.1, "server_error"@)
            &&& out.1.status != 200 ==> out.0.store.tables.refreshes == state.store.tables.refreshes
            &&& state.store.redeemable(f.code@, now) is None ==> out.0 == state && refuses(out.1, "invalid_grant"@)
            &&& state.store.redeemable(f.code@, now) matches Some(ac) ==> {
                &&& ac.redirect_uri != f.redirect_uri@ ==> refuses(out.1, "invalid_grant"@)
                &&& !verifier_given(ac, f.code_verifier@) ==> out.1.status == 400
                &&& (forall|secret: Seq<char>| !#[trigger] client_gives(headers, f, ac.client_id, secret)) ==> refuses(
                    out.1,
                    "invalid_grant"@,
                )
                &&& forall|secret: Seq<char>| #[trigger]
                    client_gives(headers, f, ac.client_id, secret) && ac.redirect_uri == f.redirect_uri@
                        && !secret_given(state, ac.client_id, secret) ==> refuses(out.1, "invalid_client"@)
                &&& state.store.with_id(ac.user_id) is None ==> out.1.status == 400
                &&& state.store.with_id(ac.user_id) matches Some(u) ==> u.disabled ==> out.1.status == 400
                &&& forall|at: u64| (#[trigger] out.0.store.redeemable(f.code@, at)) is None
            }
        }),
{
    guarantees::grant_types_differ();
    let out = grants::token_outcome(state, headers, f, fresh, now);
    let client = grants::client_named(headers, f);
    let spent = StateV { store: store::after_redeeming(state.store, f.code@, now), ..state };
    what_a_refusal_says("invalid_grant"@, "code invalid, expired, or replayed"@);
    what_a_refusal_says("invalid_grant"@, "code was issued to a different client/redirect"@);
    what_a_refusal_says("invalid_client"@, "bad client secret"@);
    what_a_refusal_says("invalid_grant"@, "PKCE verification failed"@);
    what_a_refusal_says("invalid_grant"@, "user gone"@);
    what_a_refusal_says("invalid_grant"@, "user disabled"@);
    what_a_refusal_says("server_error"@, "signing failed"@);
    if state.store.redeemable(f.code@, now) is Some {
        let ac = state.store.redeemable(f.code@, now)->0;
        assert(client.0 == ac.client_id ==> client_gives(headers, f, ac.client_id, client.1));
        let c = store::new_refresh(
            fresh,
            state.store.with_id(ac.user_id)->0.id,
            ac.client_id,
            ac.scope,
            grants::REFRESH_TTL,
            now,
        );
        assert forall|at: u64| (#[trigger] out.0.store.redeemable(f.code@, at)) is None by {
            laws::codes_are_redeemed_once(state.store, f.code@, now, at);
            laws::codes_are_redeemed_once(spent.store, f.code@, now, at);
            laws::spent_codes_stay_spent(spent.store, f.code@, c);
            laws::codes_are_redeemed_once(out.0.store, f.code@, now, at);
        }
    }
    if out.1.status == 200 {
        let ac = state.store.redeemable(f.code@, now)->0;
        let user = state.store.with_id(ac.user_id)->0;
        assert(client_gives(headers, f, ac.client_id, client.1));
        assert(code_stands(state, headers, f, now, ac, user));
    }
}

// ---------------------------------------------------------------------------------------------
// Refresh tokens
// ---------------------------------------------------------------------------------------------

/// A refresh token that is live gives a new access token for its person, its client and its whole scope,
/// and its replacement; it is spent by that.
pub proof fn a_refresh_token_gives_access(
    state: StateV,
    headers: HeadersV,
    f: TokenRequest,
    fresh: Seq<char>,
    now: u64,
    t: RefreshTokenV,
    user: UserV,
)
    requires
        f.grant_type@ == "refresh_token"@,
        state.store.refreshable(f.refresh_token@, now) == Some(t),
        state.store.with_id(t.user_id) == Some(user),
        access_for(state, user, t.client_id, t.scope, state.config.access_token_ttl, now) is Ok,
    ensures
        ({
            let out = grants::token_outcome(state, headers, f, fresh, now);
            let ttl = state.config.access_token_ttl;
            &&& gives_access(
                out.1,
                access_for(state, user, t.client_id, t.scope, ttl, now)->Ok_0.0,
                t.scope,
                ttl,
            )
            &&& said(out.1, "refresh_token"@) == Some(JsonV::Str(fresh))
            &&& forall|at: u64| (#[trigger] out.0.store.refreshable(f.refresh_token@, at)) is None
            &&& forall|i: int|
                0 <= i < state.store.tables.refreshes.len() && (#[trigger] state.store.tables.refreshes[i]).token
                    == f.refresh_token@ ==> out.0.store.tables.refreshes[i].rotated_to == Some(fresh)
            &&& said(out.1, "id_token"@) is None
        }),
{
    guarantees::grant_types_differ();
    grant_names_differ();
    let out = grants::token_outcome(state, headers, f, fresh, now);
    let ttl = state.config.access_token_ttl;
    let access = access_for(state, user, t.client_id, t.scope, ttl, now)->Ok_0.0;
    let p = grants::refresh_grant(access, ttl, fresh, t.scope);
    json::member_of_no_pair(p, "id_token"@);
    json::member_of_pair(p, 0);
    json::member_of_pair(p, 1);
    json::member_of_pair(p, 2);
    json::member_of_pair(p, 3);
    json::member_of_pair(p, 4);
    assert forall|at: u64| (#[trigger] out.0.store.refreshable(f.refresh_token@, at)) is None by {
        laws::refresh_tokens_work_once(state.store, f.refresh_token@, fresh, now, at);
        laws::refresh_tokens_work_once(out.0.store, f.refresh_token@, fresh, now, at);
    }
}

/// A refresh token gives nothing unless it is live and its person is there.
pub proof fn what_a_refresh_token_takes(state: StateV, headers: HeadersV, f: TokenRequest, fresh: Seq<char>, now: u64)
    requires
        f.grant_type@ == "refresh_token"@,
    ensures
        ({
            let out = grants::token_outcome(state, headers, f, fresh, now);
            &&& out.1.status == 200 ==> (state.store.refreshable(f.refresh_token@, now) matches Some(t)
                && state.store.with_id(t.user_id) is Some)
            &&& out.1.status != 200 ==> refuses(out.1, "invalid_grant"@) || refuses(out.1, "server_error"@)
            &&& state.store.refreshable(f.refresh_token@, now) is None ==> out.0 == state && refuses(
                out.1,
                "invalid_grant"@,
            )
        }),
{
    guarantees::grant_types_differ();
    what_a_refusal_says("invalid_grant"@, "refresh token invalid or reused"@);
    what_a_refusal_says("invalid_grant"@, "user gone"@);
    what_a_refusal_says("server_error"@, "signing failed"@);
}

/// The refresh token that came with a code works for thirty days: it gives an access token for the same
/// person and client, with the same scope.
pub proof fn a_given_refresh_token_works(
    state: StateV,
    headers: HeadersV,
    f: TokenRequest,
    fresh: Seq<char>,
    now: u64,
    ac: AuthCodeV,
    user: UserV,
    headers2: HeadersV,
    f2: TokenRequest,
    fresh2: Seq<char>,
    at: u64,
)
    requires
        f.grant_type@ == "authorization_code"@,
        code_stands(state, headers, f, now, ac, user),
        access_for(state, user, ac.client_id, ac.scope, state.config.access_token_ttl, now) is Ok,
        text::split(ac.scope, ' ').contains("offline_access"@),
        f.refresh_token@.len() == 0,
        refresh_fits(state, fresh, now),
        f2.grant_type@ == "refresh_token"@,
        f2.refresh_token@ == fresh,
        at < now + 30 * 24 * 3600,
        access_for(state, user, ac.client_id, ac.scope, state.config.access_token_ttl, at) is Ok,
    ensures
        ({
            let given = grants::token_outcome(state, headers, f, fresh, now).0;
            let out = grants::token_outcome(given, headers2, f2, fresh2, at);
            let ttl = state.config.access_token_ttl;
            &&& gives_access(
                out.1,
                access_for(state, user, ac.client_id, ac.scope, ttl, at)->Ok_0.0,
                ac.scope,
                ttl,
            )
            &&& said(out.1, "refresh_token"@) == Some(JsonV::Str(fresh2))
        }),
{
    a_code_gives_its_tokens(state, headers, f, fresh, now, ac, user);
    guarantees::token_follows(state, headers, f, fresh, now);
    let given = grants::token_outcome(state, headers, f, fresh, now).0;
    let rows = state.store.tables.refreshes;
    let t = refresh_row(fresh, user.id, ac.client_id, ac.scope, now);
    let p = store::live_refresh(fresh, at);
    assert(given.store.tables.refreshes == rows.push(t));
    assert(p(t));
    tables::first_none(rows, p);
    assert forall|j: int| 0 <= j < rows.len() implies !p(#[trigger] rows[j]) by {
        assert(rows[j].token != fresh);
    }
    tables::first_push(rows, t, p);
    guarantees::grant_types_differ();
    assert(given.store.reachable && given.key == state.key && given.config == state.config);
    assert(given.store.tables.users == state.store.tables.users);
    store_laws::people_are_found_by_their_keys(state.store, ac.user_id);
    a_refresh_token_gives_access(given, headers2, f2, fresh2, at, t, user);
}

/// A request for tokens leaves people, sessions, clients and decisions as they are, and agents too but for
/// when they were seen.
pub proof fn what_token_requests_leave_alone(
    state: StateV,
    headers: HeadersV,
    f: TokenRequest,
    fresh: Seq<char>,
    now: u64,
    i: int,
)
    ensures
        ({
            let out = grants::token_outcome(state, headers, f, fresh, now);
            let a = state.store.tables;
            let b = out.0.store.tables;
            &&& b.users == a.users && b.sessions == a.sessions && b.clients == a.clients && b.consents == a.consents
            &&& b.promoted == a.promoted
            &&& b.agents.len() == a.agents.len()
            &&& 0 <= i < a.agents.len() ==> b.agents[i] == (crate::rows::AgentRowV {
                last_seen: b.agents[i].last_seen,
                ..a.agents[i]
            })
            &&& f.grant_type@ != "authorization_code"@ ==> b.codes == a.codes
            &&& f.grant_type@ == "client_credentials"@ ==> b.refreshes == a.refreshes
            &&& out.0.config == state.config && out.0.key == state.key
        }),
{
    guarantees::grant_types_differ();
}

/// Any other kind of request for tokens is refused and changes nothing.
pub proof fn other_requests_are_refused(state: StateV, headers: HeadersV, f: TokenRequest, fresh: Seq<char>, now: u64)
    requires
        f.grant_type@ != "authorization_code"@,
        f.grant_type@ != "refresh_token"@,
        f.grant_type@ != "client_credentials"@,
    ensures
        grants::token_outcome(state, headers, f, fresh, now).0 == state,
        refuses(grants::token_outcome(state, headers, f, fresh, now).1, "unsupported_grant_type"@),
{
    what_a_refusal_says(
        "unsupported_grant_type"@,
        "supported: authorization_code, refresh_token, client_credentials"@,
    );
}

} // verus!
