//! Requests and replies, as far as the provider reads and writes them.

use crate::config::{Config, ConfigV};
use crate::crypto::{KeyV, SigningKey};
use crate::json;
use crate::json::JsonV;
use crate::store;
use crate::store::{Store, StoreV};
use crate::tables::ChangeV;
use crate::text;
use serde_json::Value;
use vstd::prelude::*;
use vstd::string::*;

verus! {

/// The headers of a request that the provider reads. A header that is not plain text counts as
/// missing.
#[derive(Debug)]
pub struct RequestHeaders {
    pub cookie: Option<String>,
    pub authorization: Option<String>,
    pub forwarded_for: Option<String>,
}

/// What the headers of a request hold.
pub struct HeadersV {
    pub cookie: Option<Seq<char>>,
    pub authorization: Option<Seq<char>>,
    pub forwarded_for: Option<Seq<char>>,
}

impl View for RequestHeaders {
    type V = HeadersV;

    open spec fn view(&self) -> HeadersV {
        HeadersV {
            cookie: text::opt_view(self.cookie),
            authorization: text::opt_view(self.authorization),
            forwarded_for: text::opt_view(self.forwarded_for),
        }
    }
}

/// The body of a reply.
#[derive(Debug)]
pub enum Body {
    Empty,
    Html(String),
    Json(Value),
}

/// What the body of a reply holds.
pub enum BodyV {
    Empty,
    Html(Seq<char>),
    Json(JsonV),
}

impl View for Body {
    type V = BodyV;

    open spec fn view(&self) -> BodyV {
        match *self {
            Body::Empty => BodyV::Empty,
            Body::Html(s) => BodyV::Html(s@),
            Body::Json(v) => BodyV::Json(json::json_view(v)),
        }
    }
}

/// A reply.
#[derive(Debug)]
pub struct Reply {
    pub status: u16,
    pub location: Option<String>,
    pub cookies: Vec<String>,
    pub cache_control: Option<String>,
    pub body: Body,
}

/// What a reply holds.
#[verifier::ext_equal]
pub struct ReplyV {
    pub status: u16,
    pub location: Option<Seq<char>>,
    pub cookies: Seq<Seq<char>>,
    pub cache_control: Option<Seq<char>>,
    pub body: BodyV,
}

impl View for Reply {
    type V = ReplyV;

    open spec fn view(&self) -> ReplyV {
        ReplyV {
            status: self.status,
            location: text::opt_view(self.location),
            cookies: text::list_view(self.cookies@),
            cache_control: text::opt_view(self.cache_control),
            body: self.body@,
        }
    }
}

/// A reply with this status and body, and nothing else.
pub open spec fn plain(status: u16, body: BodyV) -> ReplyV {
    ReplyV { status, location: None, cookies: Seq::empty(), cache_control: None, body }
}

/// A reply that sends the browser elsewhere.
pub open spec fn redirect(location: Seq<char>) -> ReplyV {
    ReplyV { location: Some(location), ..plain(303, BodyV::Empty) }
}

impl ReplyV {
    /// The reply with one more cookie.
    pub open spec fn with_cookie(self, cookie: Seq<char>) -> ReplyV {
        ReplyV { cookies: self.cookies.push(cookie), ..self }
    }

    /// The reply with a rule for caches.
    pub open spec fn cached(self, rule: Seq<char>) -> ReplyV {
        ReplyV { cache_control: Some(rule), ..self }
    }
}

impl Reply {
    /// A reply with this status and body, and nothing else.
    pub fn new(status: u16, body: Body) -> (r: Reply)
        ensures
            r@ == plain(status, body@),
    {
        let r: Reply = Reply { status, location: None, cookies: Vec::new(), cache_control: None, body };
        assert(r@.cookies =~= Seq::empty());
        r
    }

    /// A page.
    pub fn html(status: u16, page: String) -> (r: Reply)
        ensures
            r@ == plain(status, BodyV::Html(page@)),
    {
        Reply::new(status, Body::Html(page))
    }

    /// A JSON value.
    pub fn json(status: u16, v: Value) -> (r: Reply)
        ensures
            r@ == plain(status, BodyV::Json(json::json_view(v))),
    {
        Reply::new(status, Body::Json(v))
    }

    /// A reply that sends the browser elsewhere.
    pub fn redirect(location: String) -> (r: Reply)
        ensures
            r@ == redirect(location@),
    {
        let mut r: Reply = Reply::new(303, Body::Empty);
        r.location = Some(location);
        r
    }

    /// The reply with one more cookie.
    pub fn with_cookie(self, cookie: String) -> (r: Reply)
        ensures
            r@ == self@.with_cookie(cookie@),
    {
        let mut r: Reply = self;
        let ghost before = r.cookies@;
        let ghost c = cookie@;
        r.cookies.push(cookie);
        assert(text::list_view(r.cookies@) =~= text::list_view(before).push(c));
        r
    }

    /// The reply with a rule for caches.
    pub fn cached(self, rule: &str) -> (r: Reply)
        ensures
            r@ == self@.cached(rule@),
    {
        let mut r: Reply = self;
        r.cache_control = Some(rule.to_owned());
        r
    }
}

/// The headers that every reply carries.
pub open spec fn security_headers() -> Seq<(Seq<char>, Seq<char>)> {
    seq![
        ("x-frame-options"@, "DENY"@),
        ("x-content-type-options"@, "nosniff"@),
        ("referrer-policy"@, "no-referrer"@),
        ("strict-transport-security"@, "max-age=63072000; includeSubDomains; preload"@),
    ]
}

/// A header with an optional value.
pub open spec fn optional_header(name: Seq<char>, value: Option<Seq<char>>) -> Seq<(Seq<char>, Seq<char>)> {
    match value {
        Some(v) => seq![(name, v)],
        None => Seq::empty(),
    }
}

/// The type of the body of a reply.
pub open spec fn content_type(b: BodyV) -> Option<Seq<char>> {
    match b {
        BodyV::Empty => None,
        BodyV::Html(_) => Some("text/html; charset=utf-8"@),
        BodyV::Json(_) => Some("application/json"@),
    }
}

/// The headers of a reply.
pub open spec fn headers_of(r: ReplyV) -> Seq<(Seq<char>, Seq<char>)> {
    optional_header("content-type"@, content_type(r.body)) + optional_header("cache-control"@, r.cache_control)
        + optional_header("location"@, r.location) + r.cookies.map_values(
        |c: Seq<char>| ("set-cookie"@, c),
    ) + security_headers()
}

/// What header names and values hold.
pub open spec fn header_views(h: Seq<(String, String)>) -> Seq<(Seq<char>, Seq<char>)> {
    h.map_values(|x: (String, String)| (x.0@, x.1@))
}

/// Adds a header.
fn add_header(h: &mut Vec<(String, String)>, name: &str, value: &str)
    ensures
        header_views(final(h)@) == header_views(old(h)@).push((name@, value@)),
{
    h.push((name.to_owned(), value.to_owned()));
    assert(header_views(h@) =~= header_views(old(h)@).push((name@, value@)));
}

/// Adds a header that may have no value.
fn add_optional(h: &mut Vec<(String, String)>, name: &str, value: &Option<String>)
    ensures
        header_views(final(h)@) == header_views(old(h)@) + optional_header(name@, text::opt_view(*value)),
{
    match value {
        Some(v) => {
            add_header(h, name, v.as_str());
            assert(header_views(h@) =~= header_views(old(h)@) + seq![(name@, v@)]);
        },
        None => {
            assert(header_views(h@) =~= header_views(old(h)@) + Seq::<(Seq<char>, Seq<char>)>::empty());
        },
    }
}

impl Reply {
    /// The headers of the reply. Every reply carries the security headers.
    pub fn headers(&self) -> (r: Vec<(String, String)>)
        ensures
            header_views(r@) == headers_of(self@),
    {
        let mut h: Vec<(String, String)> = Vec::new();
        let kind: Option<String> = match &self.body {
            Body::Empty => None,
            Body::Html(_) => Some("text/html; charset=utf-8".to_owned()),
            Body::Json(_) => Some("application/json".to_owned()),
        };
        assert(header_views(h@) =~= Seq::<(Seq<char>, Seq<char>)>::empty());
        add_optional(&mut h, "content-type", &kind);
        add_optional(&mut h, "cache-control", &self.cache_control);
        add_optional(&mut h, "location", &self.location);
        let ghost before = header_views(h@);
        let ghost all = self@.cookies.map_values(|c: Seq<char>| ("set-cookie"@, c));
        assert(before =~= optional_header("content-type"@, content_type(self@.body)) + optional_header(
            "cache-control"@,
            self@.cache_control,
        ) + optional_header("location"@, self@.location));
        let mut i: usize = 0;
        assert(before =~= before + all.take(0));
        while i < self.cookies.len()
            invariant
                i <= self.cookies@.len(),
                all == self@.cookies.map_values(|c: Seq<char>| ("set-cookie"@, c)),
                header_views(h@) == before + all.take(i as int),
            decreases self.cookies.len() - i,
        {
            add_header(&mut h, "set-cookie", self.cookies[i].as_str());
            proof {
                assert(all[i as int] == ("set-cookie"@, self.cookies@[i as int]@));
                assert(all.take(i + 1) =~= all.take(i as int).push(all[i as int]));
                assert(header_views(h@) =~= before + all.take(i + 1));
            }
            i += 1;
        }
        assert(all.take(i as int) =~= all);
        let ghost most = header_views(h@);
        add_header(&mut h, "x-frame-options", "DENY");
        add_header(&mut h, "x-content-type-options", "nosniff");
        add_header(&mut h, "referrer-policy", "no-referrer");
        add_header(&mut h, "strict-transport-security", "max-age=63072000; includeSubDomains; preload");
        assert(header_views(h@) =~= most + security_headers());
        h
    }
}

/// Every reply carries the security headers: it may not be framed, its type may not be guessed, no
/// referrer is sent on, and only encrypted connections are used.
pub proof fn security_headers_on_every_reply(r: ReplyV)
    ensures
        headers_of(r).contains(("x-frame-options"@, "DENY"@)),
        headers_of(r).contains(("x-content-type-options"@, "nosniff"@)),
        headers_of(r).contains(("referrer-policy"@, "no-referrer"@)),
        headers_of(r).contains(
            ("strict-transport-security"@, "max-age=63072000; includeSubDomains; preload"@),
        ),
{
    let h = headers_of(r);
    let s = security_headers();
    let n = h.len() - s.len();
    assert(h[n] == s[0] && h[n + 1] == s[1] && h[n + 2] == s[2] && h[n + 3] == s[3]);
}

/// The provider: its settings, its store and its key.
pub struct AppState {
    pub config: Config,
    pub store: Store,
    pub key: SigningKey,
}

/// What the provider holds.
#[verifier::ext_equal]
pub struct StateV {
    pub config: ConfigV,
    pub store: StoreV,
    pub key: KeyV,
}

impl View for AppState {
    type V = StateV;

    open spec fn view(&self) -> StateV {
        StateV { config: self.config@, store: self.store@, key: self.key@ }
    }
}

impl StateV {
    /// The provider after a change to its store, which is made or not.
    pub open spec fn step(self, c: ChangeV) -> StateV {
        StateV { store: self.store.step(c), ..self }
    }

    /// The provider after an entry of the audit log.
    pub open spec fn note(self, event: Seq<char>, user_id: Option<Seq<char>>, detail: JsonV, now: u64) -> StateV {
        self.step(store::new_entry(event, user_id, detail, now))
    }
}

impl AppState {
    /// Adds an entry to the audit log, if the store takes it.
    pub fn note(&mut self, event: &str, user_id: Option<String>, detail: Value, now: u64)
        ensures
            final(self)@ == old(self)@.note(event@, text::opt_view(user_id), json::json_view(detail), now),
    {
        let _ = self.store.audit(event, user_id, detail, now);
    }
}

} // verus!
