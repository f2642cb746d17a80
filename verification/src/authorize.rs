//! The authorization endpoint: a client asks for access, the person consents, a code is issued.

use crate::cookies;
use crate::crypto;
use crate::encoding;
use crate::http;
use crate::http::{AppState, BodyV, HeadersV, Reply, ReplyV, RequestHeaders, StateV};
use crate::json;
use crate::json::JsonV;
use crate::login;
use crate::pages;
use crate::rows::{AuthCode, AuthCodeV, Client, ClientV, User, UserV};
use crate::store;
use crate::tables::ChangeV;
use crate::text;
use serde_json::Value;
use vstd::prelude::*;
use vstd::string::*;

verus! {

/// What a client asks for.
#[derive(Debug)]
pub struct AuthorizeQuery {
    pub response_type: String,
    pub client_id: String,
    pub redirect_uri: String,
    pub scope: String,
    pub state: Option<String>,
    pub nonce: Option<String>,
    pub code_challenge: Option<String>,
    pub code_challenge_method: Option<String>,
}

/// What an authorization query holds.
#[verifier::ext_equal]
pub struct QueryV {
    pub response_type: Seq<char>,
    pub client_id: Seq<char>,
    pub redirect_uri: Seq<char>,
    pub scope: Seq<char>,
    pub state: Option<Seq<char>>,
    pub nonce: Option<Seq<char>>,
    pub code_challenge: Option<Seq<char>>,
    pub code_challenge_method: Option<Seq<char>>,
}

impl View for AuthorizeQuery {
    type V = QueryV;

    open spec fn view(&self) -> QueryV {
        QueryV {
            response_type: self.response_type@,
            client_id: self.client_id@,
            redirect_uri: self.redirect_uri@,
            scope: self.scope@,
            state: text::opt_view(self.state),
            nonce: text::opt_view(self.nonce),
            code_challenge: text::opt_view(self.code_challenge),
            code_challenge_method: text::opt_view(self.code_challenge_method),
        }
    }
}

/// The form of the consent page.
#[derive(Debug)]
pub struct ConsentForm {
    pub decision: String,
    pub params: String,
    pub csrf: String,
}

// ---------------------------------------------------------------------------------------------
// Sending the browser back to the client
// ---------------------------------------------------------------------------------------------

/// The `state` of the client, to be sent back to it.
pub open spec fn state_part(state: Option<Seq<char>>) -> Seq<char> {
    match state {
        Some(st) => "&state="@ + encoding::url_encoded(st),
        None => ""@,
    }
}

fn make_state_part(state: &Option<String>) -> (r: String)
    ensures
        r@ == state_part(text::opt_view(*state)),
{
    match state {
        Some(st) => {
            let mut s: String = "&state=".to_owned();
            let e: String = encoding::url_encode(st.as_str());
            s.append(e.as_str());
            s
        },
        None => "".to_owned(),
    }
}

/// Sends the browser back to the client with an error.
pub open spec fn error_redirect(
    redirect_uri: Seq<char>,
    error: Seq<char>,
    description: Seq<char>,
    state: Option<Seq<char>>,
) -> ReplyV {
    http::redirect(
        redirect_uri + "?error="@ + error + "&error_description="@ + encoding::url_encoded(description) + state_part(
            state,
        ),
    )
}

/// Sends the browser back to the client with an error.
pub fn authorize_error_redirect(
    redirect_uri: &str,
    error: &str,
    description: &str,
    oauth_state: &Option<String>,
) -> (r: Reply)
    ensures
        r@ == error_redirect(redirect_uri@, error@, description@, text::opt_view(*oauth_state)),
{
    let mut url: String = redirect_uri.to_owned();
    url.append("?error=");
    url.append(error);
    url.append("&error_description=");
    let d: String = encoding::url_encode(description);
    url.append(d.as_str());
    let st: String = make_state_part(oauth_state);
    url.append(st.as_str());
    Reply::redirect(url)
}

// ---------------------------------------------------------------------------------------------
// The query as a URL
// ---------------------------------------------------------------------------------------------

/// A parameter that may be missing.
pub open spec fn optional_param(key: Seq<char>, value: Option<Seq<char>>) -> Seq<(Seq<char>, Seq<char>)> {
    match value {
        Some(v) => seq![(key, v)],
        None => Seq::empty(),
    }
}

/// The parameters of a query, in order.
pub open spec fn params_of(q: QueryV) -> Seq<(Seq<char>, Seq<char>)> {
    seq![
        ("response_type"@, q.response_type),
        ("client_id"@, q.client_id),
        ("redirect_uri"@, q.redirect_uri),
        ("scope"@, q.scope),
    ] + optional_param("state"@, q.state) + optional_param("nonce"@, q.nonce) + optional_param(
        "code_challenge"@,
        q.code_challenge,
    ) + optional_param("code_challenge_method"@, q.code_challenge_method)
}

/// A parameter as it stands in a query.
pub open spec fn param_text(p: (Seq<char>, Seq<char>)) -> Seq<char> {
    p.0 + "="@ + encoding::url_encoded(p.1)
}

/// The URL of a query on this site.
pub open spec fn authorize_url(q: QueryV) -> Seq<char> {
    "/authorize?"@ + text::join(params_of(q).map_values(|p: (Seq<char>, Seq<char>)| param_text(p)), "&"@)
}

/// Adds a parameter.
fn add_param(params: &mut Vec<String>, key: &str, value: &str)
    ensures
        text::list_view(final(params)@) == text::list_view(old(params)@).push(param_text((key@, value@))),
{
    let mut s: String = key.to_owned();
    s.append("=");
    let e: String = encoding::url_encode(value);
    s.append(e.as_str());
    let ghost t = s@;
    params.push(s);
    assert(text::list_view(params@) =~= text::list_view(old(params)@).push(t));
}

/// Adds a parameter that may be missing.
fn add_optional_param(params: &mut Vec<String>, key: &str, value: &Option<String>)
    ensures
        text::list_view(final(params)@) == text::list_view(old(params)@) + optional_param(
            key@,
            text::opt_view(*value),
        ).map_values(|p: (Seq<char>, Seq<char>)| param_text(p)),
{
    let ghost more = optional_param(key@, text::opt_view(*value)).map_values(
        |p: (Seq<char>, Seq<char>)| param_text(p),
    );
    match value {
        Some(v) => {
            add_param(params, key, v.as_str());
            assert(more =~= seq![param_text((key@, v@))]);
            assert(text::list_view(params@) =~= text::list_view(old(params)@) + more);
        },
        None => {
            assert(more =~= Seq::empty());
            assert(text::list_view(params@) =~= text::list_view(old(params)@) + more);
        },
    }
}

/// The URL of a query on this site.
pub fn build_authorize_url(q: &AuthorizeQuery) -> (r: String)
    ensures
        r@ == authorize_url(q@),
{
    let mut params: Vec<String> = Vec::new();
    let ghost f = |p: (Seq<char>, Seq<char>)| param_text(p);
    assert(text::list_view(params@) =~= Seq::empty());
    add_param(&mut params, "response_type", q.response_type.as_str());
    add_param(&mut params, "client_id", q.client_id.as_str());
    add_param(&mut params, "redirect_uri", q.redirect_uri.as_str());
    add_param(&mut params, "scope", q.scope.as_str());
    add_optional_param(&mut params, "state", &q.state);
    add_optional_param(&mut params, "nonce", &q.nonce);
    add_optional_param(&mut params, "code_challenge", &q.code_challenge);
    add_optional_param(&mut params, "code_challenge_method", &q.code_challenge_method);
    assert(text::list_view(params@) =~= params_of(q@).map_values(f));
    let mut url: String = "/authorize?".to_owned();
    let qs: String = text::join_list(&params, "&");
    url.append(qs.as_str());
    url
}

/// The parameters in the pieces of a query: a later one replaces an earlier one with the same key, a
/// piece without `=` is left out, and there are none at all where a value is not percent-encoded
/// UTF-8.
pub open spec fn query_pairs(pieces: Seq<Seq<char>>) -> Option<Map<Seq<char>, Seq<char>>>
    decreases pieces.len(),
{
    if pieces.len() == 0 {
        Some(Map::empty())
    } else {
        match query_pairs(pieces.drop_last()) {
            None => None,
            Some(m) => match text::split_once(pieces.last(), '=') {
                None => Some(m),
                Some(kv) => match encoding::url_decoded(kv.1) {
                    None => None,
                    Some(v) => Some(m.insert(kv.0, v)),
                },
            },
        }
    }
}

/// A parameter, where it is there.
pub open spec fn param(m: Map<Seq<char>, Seq<char>>, key: Seq<char>) -> Option<Seq<char>> {
    if m.dom().contains(key) {
        Some(m[key])
    } else {
        None
    }
}

/// The authorization query in a query text.
pub open spec fn parsed_query(qs: Seq<char>) -> Option<QueryV> {
    match query_pairs(text::split(qs, '&')) {
        None => None,
        Some(m) => Some(
            QueryV {
                response_type: login::or_empty(param(m, "response_type"@)),
                client_id: login::or_empty(param(m, "client_id"@)),
                redirect_uri: login::or_empty(param(m, "redirect_uri"@)),
                scope: login::or_empty(param(m, "scope"@)),
                state: param(m, "state"@),
                nonce: param(m, "nonce"@),
                code_challenge: param(m, "code_challenge"@),
                code_challenge_method: param(m, "code_challenge_method"@),
            },
        ),
    }
}

/// The last value that a list of pairs has for a key.
pub open spec fn pair_map(p: Seq<(String, String)>) -> Map<Seq<char>, Seq<char>>
    decreases p.len(),
{
    if p.len() == 0 {
        Map::empty()
    } else {
        pair_map(p.drop_last()).insert(p.last().0@, p.last().1@)
    }
}

/// A key that no pair from `n` on has is looked up among the first `n`.
proof fn pair_map_prefix(p: Seq<(String, String)>, n: int, key: Seq<char>)
    requires
        0 <= n <= p.len(),
        forall|j: int| n <= j < p.len() ==> (#[trigger] p[j]).0@ != key,
    ensures
        param(pair_map(p), key) == param(pair_map(p.take(n)), key),
    decreases p.len(),
{
    if n == p.len() {
        assert(p.take(n) =~= p);
    } else {
        assert(p.last() == p[p.len() - 1]);
        pair_map_prefix(p.drop_last(), n, key);
        assert(p.drop_last().take(n) =~= p.take(n));
    }
}

/// The last value that a list of pairs has for a key.
fn lookup(p: &Vec<(String, String)>, key: &str) -> (r: Option<String>)
    ensures
        text::opt_view(r) == param(pair_map(p@), key@),
{
    let mut i: usize = p.len();
    while i > 0
        invariant
            i <= p@.len(),
            forall|j: int| i <= j < p@.len() ==> (#[trigger] p@[j]).0@ != key@,
        decreases i,
    {
        if text::same(p[i - 1].0.as_str(), key) {
            proof {
                pair_map_prefix(p@, i as int, key@);
                assert(p@.take(i as int).last() == p@[i - 1]);
            }
            return Some(p[i - 1].1.clone());
        }
        i -= 1;
    }
    proof {
        pair_map_prefix(p@, 0, key@);
    }
    None
}

/// The authorization query in a query text.
pub fn serde_urlencoded_decode(qs: &str) -> (r: Option<AuthorizeQuery>)
    ensures
        match r {
            Some(q) => parsed_query(qs@) == Some(q@),
            None => parsed_query(qs@) is None,
        },
{
    let pieces: Vec<String> = text::split_on(qs, '&');
    let ghost all = text::list_view(pieces@);
    let mut pairs: Vec<(String, String)> = Vec::new();
    let mut i: usize = 0;
    assert(all.take(0) =~= Seq::empty());
    while i < pieces.len()
        invariant
            i <= pieces@.len(),
            all == text::list_view(pieces@),
            all == text::split(qs@, '&'),
            query_pairs(all.take(i as int)) == Some(pair_map(pairs@)),
        decreases pieces.len() - i,
    {
        proof {
            assert(all.take(i + 1).drop_last() =~= all.take(i as int));
            assert(all.take(i + 1).last() == pieces@[i as int]@);
        }
        match text::cut(pieces[i].as_str(), '=') {
            Some((k, v)) => match encoding::url_decode(v.as_str()) {
                Some(d) => {
                    let ghost before = pairs@;
                    let ghost kv = (k, d);
                    pairs.push((k, d));
                    assert(pairs@.drop_last() =~= before);
                    assert(pairs@.last() == kv);
                },
                None => {
                    proof {
                        fails_on(all, i + 1);
                    }
                    return None;
                },
            },
            None => {},
        }
        i += 1;
    }
    assert(all.take(i as int) =~= all);
    Some(
        AuthorizeQuery {
            response_type: login::text_or_empty(lookup(&pairs, "response_type")),
            client_id: login::text_or_empty(lookup(&pairs, "client_id")),
            redirect_uri: login::text_or_empty(lookup(&pairs, "redirect_uri")),
            scope: login::text_or_empty(lookup(&pairs, "scope")),
            state: lookup(&pairs, "state"),
            nonce: lookup(&pairs, "nonce"),
            code_challenge: lookup(&pairs, "code_challenge"),
            code_challenge_method: lookup(&pairs, "code_challenge_method"),
        },
    )
}

/// A query whose first `n` pieces cannot be read cannot be read.
proof fn fails_on(pieces: Seq<Seq<char>>, n: int)
    requires
        0 <= n <= pieces.len(),
        query_pairs(pieces.take(n)) is None,
    ensures
        query_pairs(pieces) is None,
    decreases pieces.len(),
{
    if n == pieces.len() {
        assert(pieces.take(n) =~= pieces);
    } else {
        assert(pieces.drop_last().take(n) =~= pieces.take(n));
        fails_on(pieces.drop_last(), n);
    }
}

// ---------------------------------------------------------------------------------------------
// Reading back what was written
// ---------------------------------------------------------------------------------------------

/// The parameters of a list: a later one replaces an earlier one with the same key.
pub open spec fn params_map(p: Seq<(Seq<char>, Seq<char>)>) -> Map<Seq<char>, Seq<char>>
    decreases p.len(),
{
    if p.len() == 0 {
        Map::empty()
    } else {
        params_map(p.drop_last()).insert(p.last().0, p.last().1)
    }
}

/// Whether a text can be a key: it holds none of the characters that separate the parts of a URL.
spec fn plain_key(k: Seq<char>) -> bool {
    !k.contains('=') && !k.contains('&') && !k.contains('?')
}

/// A text put together of texts without a character does not hold the character.
proof fn sum_without(a: Seq<char>, b: Seq<char>, c: char)
    requires
        !a.contains(c),
        !b.contains(c),
    ensures
        !(a + b).contains(c),
{
    if (a + b).contains(c) {
        let i = choose|i: int| 0 <= i < (a + b).len() && (a + b)[i] == c;
        if i < a.len() {
            assert(a[i] == c);
        } else {
            assert(b[i - a.len()] == c);
        }
    }
}

/// A parameter holds neither `&` nor `?`, and is cut at its first `=`.
proof fn param_text_reads(p: (Seq<char>, Seq<char>))
    requires
        plain_key(p.0),
    ensures
        !param_text(p).contains('&'),
        !param_text(p).contains('?'),
        text::split_once(param_text(p), '=') == Some((p.0, encoding::url_encoded(p.1))),
{
    reveal_strlit("=");
    assert("="@ =~= seq!['=']);
    let e = encoding::url_encoded(p.1);
    encoding::url_encoded_is_plain(p.1);
    assert("="@.len() == 1 && "="@[0] == '=');
    assert(!"="@.contains('&'));
    assert(!"="@.contains('?'));
    sum_without(p.0, "="@, '&');
    sum_without(p.0 + "="@, e, '&');
    sum_without(p.0, "="@, '?');
    sum_without(p.0 + "="@, e, '?');
    text::split_front(p.0, '=', e);
}

/// The written parameters are read back.
proof fn written_pairs(p: Seq<(Seq<char>, Seq<char>)>)
    requires
        forall|i: int| 0 <= i < p.len() ==> plain_key((#[trigger] p[i]).0),
    ensures
        query_pairs(p.map_values(|x: (Seq<char>, Seq<char>)| param_text(x))) == Some(params_map(p)),
    decreases p.len(),
{
    let f = |x: (Seq<char>, Seq<char>)| param_text(x);
    if p.len() > 0 {
        let d = p.drop_last();
        assert forall|i: int| 0 <= i < d.len() implies plain_key((#[trigger] d[i]).0) by {
            assert(d[i] == p[i]);
        }
        written_pairs(d);
        assert(p.map_values(f).drop_last() =~= d.map_values(f));
        assert(p.map_values(f).last() == param_text(p.last()));
        assert(p.last() == p[p.len() - 1]);
        param_text_reads(p.last());
        encoding::url_round_trip(p.last().1);
    }
}

/// Texts without a character, with a separator without it between them, do not hold it.
proof fn join_without(v: Seq<Seq<char>>, sep: Seq<char>, c: char)
    requires
        forall|i: int| 0 <= i < v.len() ==> !(#[trigger] v[i]).contains(c),
        !sep.contains(c),
    ensures
        !text::join(v, sep).contains(c),
    decreases v.len(),
{
    if v.len() > 1 {
        assert(v.last() == v[v.len() - 1]);
        let d = v.drop_last();
        assert forall|i: int| 0 <= i < d.len() implies !(#[trigger] d[i]).contains(c) by {
            assert(d[i] == v[i]);
        }
        join_without(d, sep, c);
        sum_without(text::join(d, sep), sep, c);
        sum_without(text::join(d, sep) + sep, v.last(), c);
    }
}

/// One more parameter, which may be missing.
proof fn map_with_optional(p: Seq<(Seq<char>, Seq<char>)>, key: Seq<char>, value: Option<Seq<char>>)
    ensures
        params_map(p + optional_param(key, value)) == match value {
            Some(v) => params_map(p).insert(key, v),
            None => params_map(p),
        },
{
    match value {
        Some(v) => {
            let q = p + optional_param(key, value);
            assert(q.drop_last() =~= p);
            assert(q.last() == (key, v));
        },
        None => {
            assert(p + optional_param(key, value) =~= p);
        },
    }
}

/// The keys are plain, and no two are the same.
proof fn keys_are_plain()
    ensures
        plain_key("response_type"@),
        plain_key("client_id"@),
        plain_key("redirect_uri"@),
        plain_key("scope"@),
        plain_key("state"@),
        plain_key("nonce"@),
        plain_key("code_challenge"@),
        plain_key("code_challenge_method"@),
        "response_type"@ != "client_id"@,
        "response_type"@ != "redirect_uri"@,
        "response_type"@ != "scope"@,
        "response_type"@ != "state"@,
        "response_type"@ != "nonce"@,
        "response_type"@ != "code_challenge"@,
        "response_type"@ != "code_challenge_method"@,
        "client_id"@ != "redirect_uri"@,
        "client_id"@ != "scope"@,
        "client_id"@ != "state"@,
        "client_id"@ != "nonce"@,
        "client_id"@ != "code_challenge"@,
        "client_id"@ != "code_challenge_method"@,
        "redirect_uri"@ != "scope"@,
        "redirect_uri"@ != "state"@,
        "redirect_uri"@ != "nonce"@,
        "redirect_uri"@ != "code_challenge"@,
        "redirect_uri"@ != "code_challenge_method"@,
        "scope"@ != "state"@,
        "scope"@ != "nonce"@,
        "scope"@ != "code_challenge"@,
        "scope"@ != "code_challenge_method"@,
        "state"@ != "nonce"@ && "state"@ != "code_challenge"@ && "state"@ != "code_challenge_method"@,
        "nonce"@ != "code_challenge"@ && "nonce"@ != "code_challenge_method"@,
        "code_challenge"@ != "code_challenge_method"@,
{
    reveal_strlit("response_type");
    reveal_strlit("client_id");
    reveal_strlit("redirect_uri");
    reveal_strlit("scope");
    reveal_strlit("state");
    reveal_strlit("nonce");
    reveal_strlit("code_challenge");
    reveal_strlit("code_challenge_method");
    assert("response_type"@.len() == 13);
    assert("client_id"@.len() == 9);
    assert("redirect_uri"@.len() == 12);
    assert("scope"@.len() == 5);
    assert("state"@.len() == 5);
    assert("nonce"@.len() == 5);
    assert("code_challenge"@.len() == 14);
    assert("code_challenge_method"@.len() == 21);
    assert("scope"@[1] == 'c');
    assert("state"@[1] == 't');
    assert("nonce"@[1] == 'o');
}

/// The URL of a query holds the whole query: reading the part behind the last `?` gives it back, also
/// after the URL was percent-encoded and decoded on its way through the consent page.
pub proof fn query_round_trip(q: QueryV)
    ensures
        encoding::url_decoded(encoding::url_encoded(authorize_url(q))) == Some(authorize_url(q)),
        parsed_query(text::after_last(authorize_url(q), '?')) == Some(q),
        hidden_query(encoding::url_encoded(authorize_url(q))) == Some(q),
{
    encoding::url_round_trip(authorize_url(q));
    keys_are_plain();
    let f = |p: (Seq<char>, Seq<char>)| param_text(p);
    let p = params_of(q);
    let v = p.map_values(f);
    reveal_strlit("&");
    assert("&"@ =~= seq!['&']);
    assert("&"@.len() == 1 && "&"@[0] == '&');
    assert(!"&"@.contains('?'));
    assert forall|i: int| 0 <= i < p.len() implies plain_key((#[trigger] p[i]).0) by {}
    assert forall|i: int| 0 <= i < v.len() implies !(#[trigger] v[i]).contains('&') && !v[i].contains('?') by {
        assert(plain_key(p[i].0));
        param_text_reads(p[i]);
        assert(v[i] == param_text(p[i]));
    }
    let qs = text::join(v, "&"@);
    join_without(v, "&"@, '?');
    reveal_strlit("/authorize?");
    reveal_strlit("/authorize");
    assert("/authorize?"@ =~= "/authorize"@ + seq!['?']);
    text::split_back("/authorize"@, '?', qs);
    assert(authorize_url(q) =~= "/authorize"@ + seq!['?'] + qs);
    assert(text::after_last(authorize_url(q), '?') == qs);
    text::split_join(v, '&');
    written_pairs(p);
    let first = seq![
        ("response_type"@, q.response_type),
        ("client_id"@, q.client_id),
        ("redirect_uri"@, q.redirect_uri),
        ("scope"@, q.scope),
    ];
    let p1 = first + optional_param("state"@, q.state);
    let p2 = p1 + optional_param("nonce"@, q.nonce);
    let p3 = p2 + optional_param("code_challenge"@, q.code_challenge);
    map_with_optional(first, "state"@, q.state);
    map_with_optional(p1, "nonce"@, q.nonce);
    map_with_optional(p2, "code_challenge"@, q.code_challenge);
    map_with_optional(p3, "code_challenge_method"@, q.code_challenge_method);
    assert(first.drop_last() =~= seq![first[0], first[1], first[2]]);
    assert(first.drop_last().drop_last() =~= seq![first[0], first[1]]);
    assert(first.drop_last().drop_last().drop_last() =~= seq![first[0]]);
    assert(first.drop_last().drop_last().drop_last().drop_last() =~= Seq::empty());
    reveal_with_fuel(params_map, 5);
}

/// The URL of a query is a path on this site, without a backslash.
pub proof fn authorize_url_is_plain(q: QueryV)
    ensures
        authorize_url(q).len() > 1,
        authorize_url(q)[0] == '/',
        authorize_url(q)[1] == 'a',
        !authorize_url(q).contains('\\'),
{
    keys_are_plain();
    let f = |p: (Seq<char>, Seq<char>)| param_text(p);
    let p = params_of(q);
    let v = p.map_values(f);
    reveal_strlit("&");
    reveal_strlit("=");
    reveal_strlit("/authorize?");
    reveal_strlit("response_type");
    reveal_strlit("client_id");
    reveal_strlit("redirect_uri");
    reveal_strlit("scope");
    reveal_strlit("state");
    reveal_strlit("nonce");
    reveal_strlit("code_challenge");
    reveal_strlit("code_challenge_method");
    assert forall|i: int| 0 <= i < v.len() implies !(#[trigger] v[i]).contains('\\') by {
        assert(v[i] == param_text(p[i]));
        encoding::url_encoded_is_plain(p[i].1);
        assert(!p[i].0.contains('\\'));
        sum_without(p[i].0, "="@, '\\');
        sum_without(p[i].0 + "="@, encoding::url_encoded(p[i].1), '\\');
    }
    join_without(v, "&"@, '\\');
    sum_without("/authorize?"@, text::join(v, "&"@), '\\');
}

// ---------------------------------------------------------------------------------------------
// Asking for access
// ---------------------------------------------------------------------------------------------

/// A scope, or `openid` where none was asked for.
pub open spec fn scope_or_openid(scope: Seq<char>) -> Seq<char> {
    if scope.len() == 0 {
        "openid"@
    } else {
        scope
    }
}

fn make_scope_or_openid(scope: &String) -> (r: String)
    ensures
        r@ == scope_or_openid(scope@),
{
    if scope.as_str().unicode_len() == 0 {
        "openid".to_owned()
    } else {
        scope.clone()
    }
}

/// Whether a scope is one that any client may ask for.
pub open spec fn standard_scope(s: Seq<char>) -> bool {
    s == "openid"@ || s == "profile"@ || s == "email"@ || s == "offline_access"@
}

/// Whether a client may ask for these scopes, separated by single spaces: each is a standard one or
/// one of its own.
pub open spec fn scopes_allowed(scope: Seq<char>, own: Seq<char>) -> bool {
    forall|i: int|
        0 <= i < text::split(scope, ' ').len() ==> standard_scope(#[trigger] text::split(scope, ' ')[i])
            || text::split(own, ' ').contains(text::split(scope, ' ')[i])
}

/// Whether a scope is one that any client may ask for.
pub fn is_standard_scope(s: &str) -> (r: bool)
    ensures
        r == standard_scope(s@),
{
    text::same(s, "openid") || text::same(s, "profile") || text::same(s, "email") || text::same(
        s,
        "offline_access",
    )
}

/// Whether a client may ask for these scopes.
fn check_scopes(scope: &str, own: &str) -> (r: bool)
    ensures
        r == scopes_allowed(scope@, own@),
{
    let had: Vec<String> = text::split_on(own, ' ');
    let test = |s: &String| -> (b: bool)
        ensures
            b == (standard_scope(s@) || text::list_view(had@).contains(s@)),
    {
        is_standard_scope(s.as_str()) || text::list_contains(&had, s.as_str())
    };
    let ghost p = |s: Seq<char>| standard_scope(s) || text::split(own@, ' ').contains(s);
    text::all_pass(&text::split_on(scope, ' '), Ghost(p), test)
}

/// Whether the proof-key parameters fit together: a challenge comes with the method `S256`, and that
/// method with a challenge.
pub open spec fn pkce_fits(q: QueryV) -> bool {
    q.code_challenge is Some == (q.code_challenge_method == Some("S256"@))
}

/// What is wrong with a query, before it is known who asks; where nothing is, the client.
pub open spec fn query_problem(state: StateV, q: QueryV) -> Result<ClientV, ReplyV> {
    match state.store.with_client(q.client_id) {
        None => Err(pages::error_reply("Unknown client_id"@)),
        Some(client) => if !client.redirect_uris.contains(q.redirect_uri) {
            Err(pages::error_reply("redirect_uri is not registered for this client"@))
        } else if q.response_type != "code"@ {
            Err(
                error_redirect(
                    q.redirect_uri,
                    "unsupported_response_type"@,
                    "only code is supported"@,
                    q.state,
                ),
            )
        } else if !scopes_allowed(q.scope, client.scopes) {
            Err(error_redirect(q.redirect_uri, "invalid_scope"@, "scope not allowed"@, q.state))
        } else if !pkce_fits(q) {
            Err(
                error_redirect(
                    q.redirect_uri,
                    "invalid_request"@,
                    "PKCE S256 required when code_challenge present"@,
                    q.state,
                ),
            )
        } else {
            Ok(client)
        },
    }
}

/// What is wrong with a query, before it is known who asks; where nothing is, the client.
fn check_query(state: &AppState, q: &AuthorizeQuery) -> (r: Result<Client, Reply>)
    ensures
        match r {
            Ok(c) => query_problem(state@, q@) == Ok::<ClientV, ReplyV>(c@),
            Err(e) => query_problem(state@, q@) == Err::<ClientV, ReplyV>(e@),
        },
{
    let client: Client = match state.store.client(q.client_id.as_str()) {
        Ok(Some(c)) => c,
        _ => {
            return Err(pages::err_page("Unknown client_id"));
        },
    };
    if !text::list_contains(&client.redirect_uris, q.redirect_uri.as_str()) {
        return Err(pages::err_page("redirect_uri is not registered for this client"));
    }
    if !text::same(q.response_type.as_str(), "code") {
        return Err(
            authorize_error_redirect(
                q.redirect_uri.as_str(),
                "unsupported_response_type",
                "only code is supported",
                &q.state,
            ),
        );
    }
    if !check_scopes(q.scope.as_str(), client.scopes.as_str()) {
        return Err(
            authorize_error_redirect(q.redirect_uri.as_str(), "invalid_scope", "scope not allowed", &q.state),
        );
    }
    let s256 = match &q.code_challenge_method {
        Some(m) => text::same(m.as_str(), "S256"),
        None => false,
    };
    if q.code_challenge.is_some() != s256 {
        return Err(
            authorize_error_redirect(
                q.redirect_uri.as_str(),
                "invalid_request",
                "PKCE S256 required when code_challenge present",
                &q.state,
            ),
        );
    }
    Ok(client)
}

/// For how long a code can be redeemed, in seconds.
pub const CODE_TTL: u64 = 300;

/// The code that is issued for a query.
pub open spec fn code_for(user: UserV, q: QueryV, code: Seq<char>, now: u64) -> AuthCodeV {
    AuthCodeV {
        code,
        client_id: q.client_id,
        redirect_uri: q.redirect_uri,
        scope: scope_or_openid(q.scope),
        user_id: user.id,
        code_challenge: q.code_challenge,
        code_challenge_meth: q.code_challenge_method,
        nonce: q.nonce,
        issued_at: now,
        expires_at: store::later(now, CODE_TTL),
    }
}

/// Sends the browser back to the client with a code.
pub open spec fn code_redirect(q: QueryV, code: Seq<char>) -> ReplyV {
    http::redirect(
        q.redirect_uri + (if q.redirect_uri.contains('?') {
            "&code="@
        } else {
            "?code="@
        }) + encoding::url_encoded(code) + state_part(q.state),
    )
}

/// What comes of issuing a code.
pub open spec fn issue_outcome(state: StateV, user: UserV, q: QueryV, code: Seq<char>, now: u64) -> (StateV, ReplyV) {
    let c = ChangeV::InsertAuthCode { auth_code: code_for(user, q, code, now) };
    if !state.store.accepts(c) {
        (state, pages::error_reply("Could not store authorization code"@))
    } else {
        (
            state.step(c).note("auth_code_issued"@, Some(user.id), login::detail1("client"@, q.client_id), now),
            code_redirect(q, code),
        )
    }
}

/// Issues a code and sends the browser back to the client with it.
pub fn issue_code_and_redirect(state: &mut AppState, user: &User, q: &AuthorizeQuery, code: &str, now: u64) -> (r:
    Reply)
    ensures
        (final(state)@, r@) == issue_outcome(old(state)@, user@, q@, code@, now),
{
    let ac: AuthCode = AuthCode {
        code: code.to_owned(),
        client_id: q.client_id.clone(),
        redirect_uri: q.redirect_uri.clone(),
        scope: make_scope_or_openid(&q.scope),
        user_id: user.id.clone(),
        code_challenge: text::copy_opt(&q.code_challenge),
        code_challenge_meth: text::copy_opt(&q.code_challenge_method),
        nonce: text::copy_opt(&q.nonce),
        issued_at: now,
        expires_at: now.saturating_add(CODE_TTL),
    };
    match state.store.put_auth_code(&ac) {
        Err(_) => pages::err_page("Could not store authorization code"),
        Ok(()) => {
            let detail: Value = login::make_detail1("client", q.client_id.as_str());
            state.note("auth_code_issued", Some(user.id.clone()), detail, now);
            let mut url: String = q.redirect_uri.clone();
            url.append(
                if text::contains_char(q.redirect_uri.as_str(), '?') {
                    "&code="
                } else {
                    "?code="
                },
            );
            let e: String = encoding::url_encode(code);
            url.append(e.as_str());
            let st: String = make_state_part(&q.state);
            url.append(st.as_str());
            Reply::redirect(url)
        },
    }
}

pub const CONSENT_START: &'static str = "<p><b>";

pub const CONSENT_SCOPES: &'static str = "</b> requests access:</p><p style=\"font-family:monospace;font-size:.85rem\">";

pub const CONSENT_USER: &'static str = "</p><p>Signed in as ";

pub const CONSENT_CSRF: &'static str = "</p><form method=\"post\" action=\"/authorize\"><input type=\"hidden\" name=\"csrf\" value=\"";

pub const CONSENT_PARAMS: &'static str = "\"><input type=\"hidden\" name=\"params\" value=\"";

pub const CONSENT_END: &'static str = "\"><button name=\"decision\" value=\"approve\">Approve</button><button name=\"decision\" value=\"deny\" style=\"background:#334155\">Deny</button></form>";

/// The consent page: what the client asks for, of whom, and the query in a hidden field.
pub open spec fn consent_page(
    headers: HeadersV,
    user: UserV,
    client: ClientV,
    q: QueryV,
    fresh: Seq<char>,
) -> ReplyV {
    let csrf = cookies::csrf_for(headers, fresh);
    http::plain(
        200,
        BodyV::Html(
            pages::page_text(
                "Consent"@,
                CONSENT_START@ + client.name + CONSENT_SCOPES@ + scope_or_openid(q.scope) + CONSENT_USER@
                    + pages::escaped(user.email) + CONSENT_CSRF@ + csrf + CONSENT_PARAMS@ + encoding::url_encoded(
                    authorize_url(q),
                ) + CONSENT_END@,
            ),
        ),
    ).with_cookie(cookies::csrf_cookie(csrf))
}

/// The consent page, with this CSRF token if the browser has none.
pub fn render_consent(
    headers: &RequestHeaders,
    user: &User,
    client: &Client,
    q: &AuthorizeQuery,
    fresh: String,
) -> (r: Reply)
    ensures
        r@ == consent_page(headers@, user@, client@, q@, fresh@),
{
    let csrf: String = cookies::csrf_or(headers, fresh);
    let hidden: String = encoding::url_encode(build_authorize_url(q).as_str());
    let scopes: String = make_scope_or_openid(&q.scope);
    let email: String = pages::html_escape(user.email.as_str());
    let mut body: String = CONSENT_START.to_owned();
    body.append(client.name.as_str());
    body.append(CONSENT_SCOPES);
    body.append(scopes.as_str());
    body.append(CONSENT_USER);
    body.append(email.as_str());
    body.append(CONSENT_CSRF);
    body.append(csrf.as_str());
    body.append(CONSENT_PARAMS);
    body.append(hidden.as_str());
    body.append(CONSENT_END);
    Reply::html(200, pages::page("Consent", body.as_str())).with_cookie(cookies::set_csrf(csrf.as_str()))
}

/// What comes of a query: `fresh` is a CSRF token, and `code` the code that may be issued.
pub open spec fn authorize_outcome(
    state: StateV,
    headers: HeadersV,
    q: QueryV,
    fresh: Seq<char>,
    code: Seq<char>,
    now: u64,
) -> (StateV, ReplyV) {
    match query_problem(state, q) {
        Err(reply) => (state, reply),
        Ok(client) => match cookies::signed_in(state, headers, now) {
            None => (state, http::redirect("/login?next="@ + encoding::url_encoded(authorize_url(q)))),
            Some(user) => {
                let decision = state.store.decision(user.id, q.client_id, q.scope);
                if decision == Some("approved"@) {
                    issue_outcome(state, user, q, code, now)
                } else if decision == Some("denied"@) {
                    (state, error_redirect(q.redirect_uri, "access_denied"@, "user denied"@, q.state))
                } else {
                    (state, consent_page(headers, user, client, q, fresh))
                }
            },
        },
    }
}

/// Takes a query: `fresh` is a CSRF token, and `code` the code that may be issued.
pub fn authorize_at(
    state: &mut AppState,
    headers: &RequestHeaders,
    q: AuthorizeQuery,
    fresh: String,
    code: String,
    now: u64,
) -> (r: Reply)
    ensures
        (final(state)@, r@) == authorize_outcome(old(state)@, headers@, q@, fresh@, code@, now),
{
    let client: Client = match check_query(state, &q) {
        Ok(c) => c,
        Err(reply) => {
            return reply;
        },
    };
    let user: User = match cookies::current_user(state, headers, now) {
        Some(u) => u,
        None => {
            let mut url: String = "/login?next=".to_owned();
            let e: String = encoding::url_encode(build_authorize_url(&q).as_str());
            url.append(e.as_str());
            return Reply::redirect(url);
        },
    };
    let decision: Option<String> = match state.store.consent(
        user.id.as_str(),
        q.client_id.as_str(),
        q.scope.as_str(),
    ) {
        Ok(d) => d,
        Err(_) => None,
    };
    match decision {
        Some(d) => {
            if text::same(d.as_str(), "approved") {
                return issue_code_and_redirect(state, &user, &q, code.as_str(), now);
            }
            proof {
                reveal_strlit("approved");
                reveal_strlit("denied");
                assert("approved"@.len() == 8 && "denied"@.len() == 6);
            }
            if text::same(d.as_str(), "denied") {
                return authorize_error_redirect(
                    q.redirect_uri.as_str(),
                    "access_denied",
                    "user denied",
                    &q.state,
                );
            }
        },
        None => {},
    }
    render_consent(headers, &user, &client, &q, fresh)
}

/// Takes a query.
pub fn authorize(state: &mut AppState, headers: &RequestHeaders, q: AuthorizeQuery) -> (r: Reply)
    ensures
        exists|fresh: Seq<char>, code: Seq<char>, now: u64|
            crypto::token_text(fresh, 32) && crypto::token_text(code, 32) && (final(state)@, r@)
                == #[trigger] authorize_outcome(old(state)@, headers@, q@, fresh, code, now),
{
    let fresh: String = crypto::rand_token(32);
    let code: String = crypto::rand_token(32);
    let now: u64 = crate::tokens::now_epoch();
    authorize_at(state, headers, q, fresh, code, now)
}

// ---------------------------------------------------------------------------------------------
// Consent
// ---------------------------------------------------------------------------------------------

/// The detail of the audit entry about a decision.
pub open spec fn consent_detail(client: Seq<char>, scope: Seq<char>) -> JsonV {
    json::object(seq![("client"@, JsonV::Str(client)), ("scope"@, JsonV::Str(scope))])
}

fn make_consent_detail(client: &str, scope: &str) -> (r: Value)
    ensures
        json::json_view(r) == consent_detail(client@, scope@),
{
    let mut p: Vec<(String, Value)> = Vec::new();
    p.push(("client".to_owned(), json::json_str(client.to_owned())));
    p.push(("scope".to_owned(), json::json_str(scope.to_owned())));
    assert(json::pair_views(p@) =~= seq![("client"@, JsonV::Str(client@)), ("scope"@, JsonV::Str(scope@))]);
    json::json_object(p)
}

/// The query in the hidden field of the consent form.
pub open spec fn hidden_query(params: Seq<char>) -> Option<QueryV> {
    parsed_query(text::after_last(login::or_empty(encoding::url_decoded(params)), '?'))
}

/// The query in the hidden field of the consent form.
fn read_hidden(params: &str) -> (r: Option<AuthorizeQuery>)
    ensures
        match r {
            Some(q) => hidden_query(params@) == Some(q@),
            None => hidden_query(params@) is None,
        },
{
    let raw: String = login::text_or_empty(encoding::url_decode(params));
    let pieces: Vec<String> = text::split_on(raw.as_str(), '?');
    proof {
        text::split_not_empty(raw@, '?');
        assert(text::list_view(pieces@).last() == pieces@.last()@);
    }
    serde_urlencoded_decode(pieces[pieces.len() - 1].as_str())
}

/// What comes of a submitted consent form.
pub open spec fn consent_outcome(
    state: StateV,
    headers: HeadersV,
    f: ConsentForm,
    code: Seq<char>,
    now: u64,
) -> (StateV, ReplyV) {
    if !cookies::csrf_good(headers, f.csrf@) {
        (state, pages::error_reply("Invalid CSRF token"@))
    } else {
        match cookies::signed_in(state, headers, now) {
            None => (state, http::redirect("/login"@)),
            Some(user) => match hidden_query(f.params@) {
                None => (state, pages::error_reply("Malformed consent payload"@)),
                Some(q) => match state.store.with_client(q.client_id) {
                    None => (state, pages::error_reply("Unknown client_id"@)),
                    Some(client) => if !client.redirect_uris.contains(q.redirect_uri) {
                        (state, pages::error_reply("redirect_uri mismatch"@))
                    } else {
                        decide_outcome(state, user, q, f.decision@ == "approve"@, code, now)
                    },
                },
            },
        }
    }
}

/// What comes of a decision: it is stored, and a code is issued or the client is told.
pub open spec fn decide_outcome(
    state: StateV,
    user: UserV,
    q: QueryV,
    approved: bool,
    code: Seq<char>,
    now: u64,
) -> (StateV, ReplyV) {
    let scope = scope_or_openid(q.scope);
    let decided = state.step(
        store::new_consent(
            user.id,
            q.client_id,
            scope,
            if approved {
                "approved"@
            } else {
                "denied"@
            },
            now,
        ),
    ).note(
        if approved {
            "consent_approved"@
        } else {
            "consent_denied"@
        },
        Some(user.id),
        consent_detail(q.client_id, scope),
        now,
    );
    if approved {
        issue_outcome(decided, user, q, code, now)
    } else {
        (decided, error_redirect(q.redirect_uri, "access_denied"@, "user denied"@, q.state))
    }
}

/// Takes a submitted consent form; `code` is the code that may be issued.
pub fn authorize_consent_at(
    state: &mut AppState,
    headers: &RequestHeaders,
    f: ConsentForm,
    code: String,
    now: u64,
) -> (r: Reply)
    ensures
        (final(state)@, r@) == consent_outcome(old(state)@, headers@, f, code@, now),
{
    if !cookies::csrf_ok(headers, f.csrf.as_str()) {
        return pages::err_page("Invalid CSRF token");
    }
    let user: User = match cookies::current_user(state, headers, now) {
        Some(u) => u,
        None => {
            return Reply::redirect("/login".to_owned());
        },
    };
    let q: AuthorizeQuery = match read_hidden(f.params.as_str()) {
        Some(q) => q,
        None => {
            return pages::err_page("Malformed consent payload");
        },
    };
    let client: Client = match state.store.client(q.client_id.as_str()) {
        Ok(Some(c)) => c,
        _ => {
            return pages::err_page("Unknown client_id");
        },
    };
    if !text::list_contains(&client.redirect_uris, q.redirect_uri.as_str()) {
        return pages::err_page("redirect_uri mismatch");
    }
    let approved = text::same(f.decision.as_str(), "approve");
    let scope: String = make_scope_or_openid(&q.scope);
    let _ = state.store.save_consent(
        user.id.as_str(),
        q.client_id.as_str(),
        scope.as_str(),
        if approved {
            "approved"
        } else {
            "denied"
        },
        now,
    );
    let detail: Value = make_consent_detail(q.client_id.as_str(), scope.as_str());
    state.note(
        if approved {
            "consent_approved"
        } else {
            "consent_denied"
        },
        Some(user.id.clone()),
        detail,
        now,
    );
    if approved {
        issue_code_and_redirect(state, &user, &q, code.as_str(), now)
    } else {
        authorize_error_redirect(q.redirect_uri.as_str(), "access_denied", "user denied", &q.state)
    }
}

/// Takes a submitted consent form.
pub fn authorize_consent(state: &mut AppState, headers: &RequestHeaders, f: ConsentForm) -> (r: Reply)
    ensures
        exists|code: Seq<char>, now: u64|
            crypto::token_text(code, 32) && (final(state)@, r@) == #[trigger] consent_outcome(
                old(state)@,
                headers@,
                f,
                code,
                now,
            ),
{
    let code: String = crypto::rand_token(32);
    let now: u64 = crate::tokens::now_epoch();
    authorize_consent_at(state, headers, f, code, now)
}

} // verus!
