//! Pages. HTML is minimal and inline, with no outside assets.

use crate::http;
use crate::http::{BodyV, Reply, ReplyV};
use crate::text;
use vstd::prelude::*;
use vstd::string::*;

verus! {

pub const PAGE_START: &'static str = "<!DOCTYPE html><html lang=\"en\"><head><meta charset=\"utf-8\"><meta name=\"viewport\" content=\"width=device-width,initial-scale=1\"><title>";

pub const PAGE_STYLE: &'static str = " — Argus</title><style>body{font-family:system-ui,sans-serif;background:#0b1020;color:#e5e7eb;display:flex;align-items:center;justify-content:center;min-height:100vh;margin:0}.card{background:#111a33;padding:2rem;border-radius:12px;width:22rem}h1{font-size:1.1rem;margin-top:0}input,button{width:100%;box-sizing:border-box;padding:.6rem;margin:.3rem 0;border-radius:8px;border:1px solid #334155;background:#0b1020;color:inherit}button{background:#6366f1;border:none;cursor:pointer;font-weight:600}a{color:#818cf8}.gh{background:#24292f}</style></head><body><div class=\"card\"><h1>Argus — ";

/// A page with a title and a body.
pub open spec fn page_text(title: Seq<char>, body: Seq<char>) -> Seq<char> {
    PAGE_START@ + title + PAGE_STYLE@ + title + "</h1>"@ + body + "</div></body></html>"@
}

/// A page with a title and a body.
pub fn page(title: &str, body: &str) -> (r: String)
    ensures
        r@ == page_text(title@, body@),
{
    let mut s: String = PAGE_START.to_owned();
    s.append(title);
    s.append(PAGE_STYLE);
    s.append(title);
    s.append("</h1>");
    s.append(body);
    s.append("</div></body></html>");
    s
}

/// The page that says what went wrong.
pub open spec fn error_reply(msg: Seq<char>) -> ReplyV {
    http::plain(
        400,
        BodyV::Html(page_text("Error"@, "<p>"@ + msg + "</p><a href=\"/login\">Back</a>"@)),
    )
}

/// The page that says what went wrong.
pub fn err_page(msg: &str) -> (r: Reply)
    ensures
        r@ == error_reply(msg@),
{
    let mut body: String = "<p>".to_owned();
    body.append(msg);
    body.append("</p><a href=\"/login\">Back</a>");
    Reply::html(400, page("Error", body.as_str()))
}

/// A character as it stands in HTML text and in attributes.
pub open spec fn escaped_char(c: char) -> Seq<char> {
    if c == '&' {
        "&amp;"@
    } else if c == '<' {
        "&lt;"@
    } else if c == '>' {
        "&gt;"@
    } else if c == '"' {
        "&quot;"@
    } else {
        seq![c]
    }
}

/// A text as it stands in HTML text and in attributes.
pub open spec fn escaped(s: Seq<char>) -> Seq<char>
    decreases s.len(),
{
    if s.len() == 0 {
        Seq::empty()
    } else {
        escaped(s.drop_last()) + escaped_char(s.last())
    }
}

/// A text as it stands in HTML text and in attributes.
pub fn html_escape(s: &str) -> (r: String)
    ensures
        r@ == escaped(s@),
{
    let mut out: String = String::new();
    let n: usize = s.unicode_len();
    let mut i: usize = 0;
    assert(s@.take(0) =~= Seq::<char>::empty());
    assert(out@ =~= escaped(s@.take(0)));
    while i < n
        invariant
            i <= n,
            n == s@.len(),
            out@ == escaped(s@.take(i as int)),
        decreases n - i,
    {
        let c: char = s.get_char(i);
        proof {
            assert(s@.take(i + 1).drop_last() =~= s@.take(i as int));
            assert(s@.take(i + 1).last() == c);
        }
        if c == '&' {
            out.append("&amp;");
        } else if c == '<' {
            out.append("&lt;");
        } else if c == '>' {
            out.append("&gt;");
        } else if c == '"' {
            out.append("&quot;");
        } else {
            let ghost before = out@;
            out.push(c);
            assert(out@ =~= before + seq![c]);
        }
        i += 1;
    }
    assert(s@.take(i as int) =~= s@);
    out
}

/// An escaped text can neither open a tag nor end an attribute: it holds no `<`, `>` or `"`.
pub proof fn escaped_is_harmless(s: Seq<char>)
    ensures
        !escaped(s).contains('<'),
        !escaped(s).contains('>'),
        !escaped(s).contains('"'),
    decreases s.len(),
{
    if s.len() > 0 {
        escaped_is_harmless(s.drop_last());
        reveal_strlit("&amp;");
        reveal_strlit("&lt;");
        reveal_strlit("&gt;");
        reveal_strlit("&quot;");
        let a = escaped(s.drop_last());
        let b = escaped_char(s.last());
        assert forall|i: int| 0 <= i < (a + b).len() implies (#[trigger] (a + b)[i]) != '<' && (a + b)[i] != '>' && (a
            + b)[i] != '"' by {
            if i < a.len() {
                assert((a + b)[i] == a[i]);
                assert(a.contains(a[i]));
            } else {
                assert((a + b)[i] == b[i - a.len()]);
            }
        }
    }
}

/// Escaping texts one by one and together is the same.
pub proof fn escaped_joins(a: Seq<char>, b: Seq<char>)
    ensures
        escaped(a + b) == escaped(a) + escaped(b),
    decreases b.len(),
{
    if b.len() == 0 {
        assert(a + b =~= a);
        assert(escaped(a) + escaped(b) =~= escaped(a));
    } else {
        assert((a + b).drop_last() =~= a + b.drop_last());
        assert((a + b).last() == b.last());
        escaped_joins(a, b.drop_last());
        assert(escaped(a + b) =~= escaped(a) + escaped(b));
    }
}

/// An escaped text is that of the first character, and behind it that of the rest.
proof fn escaped_front(s: Seq<char>)
    requires
        s.len() > 0,
    ensures
        escaped(s) == escaped_char(s[0]) + escaped(s.skip(1)),
{
    let head = seq![s[0]];
    assert(s =~= head + s.skip(1));
    escaped_joins(head, s.skip(1));
    assert(head.drop_last() =~= Seq::<char>::empty());
    assert(escaped(head.drop_last()) =~= Seq::empty());
    assert(head.last() == s[0]);
    assert(escaped(head) =~= escaped_char(s[0]));
}

/// Whether one of the four entities stands at this place of a text.
pub open spec fn entity_at(t: Seq<char>, i: int) -> bool {
    let rest = t.skip(i);
    text::has_prefix(rest, "&amp;"@) || text::has_prefix(rest, "&lt;"@) || text::has_prefix(rest, "&gt;"@)
        || text::has_prefix(rest, "&quot;"@)
}

/// Every ampersand in an escaped text begins an entity.
pub proof fn ampersands_begin_entities(s: Seq<char>)
    ensures
        forall|i: int| 0 <= i < escaped(s).len() && #[trigger] escaped(s)[i] == '&' ==> entity_at(escaped(s), i),
    decreases s.len(),
{
    if s.len() > 0 {
        reveal_strlit("&amp;");
        reveal_strlit("&lt;");
        reveal_strlit("&gt;");
        reveal_strlit("&quot;");
        escaped_front(s);
        ampersands_begin_entities(s.skip(1));
        let h = escaped_char(s[0]);
        let r = escaped(s.skip(1));
        let t = escaped(s);
        assert forall|i: int| 0 <= i < t.len() && #[trigger] t[i] == '&' implies entity_at(t, i) by {
            if i < h.len() {
                assert(t[i] == h[i]);
                assert(i == 0);
                assert(t.skip(0) =~= t);
                assert(t.take(h.len() as int) =~= h);
            } else {
                assert(t[i] == r[i - h.len()]);
                assert(t.skip(i) =~= r.skip(i - h.len()));
            }
        }
    }
}

/// A text with its entities turned back, from the first character on.
pub open spec fn unescaped(t: Seq<char>) -> Seq<char>
    decreases t.len(),
{
    if t.len() == 0 {
        Seq::empty()
    } else if text::has_prefix(t, seq!['&', 'a', 'm', 'p', ';']) {
        seq!['&'] + unescaped(t.skip(5))
    } else if text::has_prefix(t, seq!['&', 'l', 't', ';']) {
        seq!['<'] + unescaped(t.skip(4))
    } else if text::has_prefix(t, seq!['&', 'g', 't', ';']) {
        seq!['>'] + unescaped(t.skip(4))
    } else if text::has_prefix(t, seq!['&', 'q', 'u', 'o', 't', ';']) {
        seq!['"'] + unescaped(t.skip(6))
    } else {
        seq![t[0]] + unescaped(t.skip(1))
    }
}

/// Turning the entities of an escaped text back gives the text.
pub proof fn escaping_is_undone(s: Seq<char>)
    ensures
        unescaped(escaped(s)) == s,
    decreases s.len(),
{
    if s.len() > 0 {
        reveal_strlit("&amp;");
        reveal_strlit("&lt;");
        reveal_strlit("&gt;");
        reveal_strlit("&quot;");
        let amp = seq!['&', 'a', 'm', 'p', ';'];
        let lt = seq!['&', 'l', 't', ';'];
        let gt = seq!['&', 'g', 't', ';'];
        let quot = seq!['&', 'q', 'u', 'o', 't', ';'];
        assert("&amp;"@ =~= amp);
        assert("&lt;"@ =~= lt);
        assert("&gt;"@ =~= gt);
        assert("&quot;"@ =~= quot);
        escaped_front(s);
        escaping_is_undone(s.skip(1));
        let h = escaped_char(s[0]);
        let r = escaped(s.skip(1));
        let t = escaped(s);
        assert(t.take(h.len() as int) =~= h);
        assert(t.skip(h.len() as int) =~= r);
        assert(t[0] == h[0]);
        assert(h.len() > 1 ==> t[1] == h[1]);
        assert(seq![s[0]] + s.skip(1) =~= s);
        starts_alike(t, amp);
        starts_alike(t, lt);
        starts_alike(t, gt);
        starts_alike(t, quot);
    }
}

/// A text begins with the first two characters of what it begins with.
proof fn starts_alike(t: Seq<char>, p: Seq<char>)
    requires
        p.len() > 1,
    ensures
        text::has_prefix(t, p) ==> t[0] == p[0] && t[1] == p[1],
{
    if text::has_prefix(t, p) {
        let u = t.take(p.len() as int);
        assert(u[0] == t[0] && u[1] == t[1]);
    }
}

/// Texts that differ differ when escaped.
pub proof fn escaping_is_injective(a: Seq<char>, b: Seq<char>)
    requires
        escaped(a) == escaped(b),
    ensures
        a == b,
{
    escaping_is_undone(a);
    escaping_is_undone(b);
}

/// A text without any of the four characters stays as it is.
pub proof fn plain_text_stays(s: Seq<char>)
    requires
        !s.contains('&'),
        !s.contains('<'),
        !s.contains('>'),
        !s.contains('"'),
    ensures
        escaped(s) == s,
    decreases s.len(),
{
    if s.len() > 0 {
        let d = s.drop_last();
        assert forall|c: char| d.contains(c) implies s.contains(c) by {
            let k = choose|k: int| 0 <= k < d.len() && d[k] == c;
            assert(s[k] == c);
        }
        plain_text_stays(d);
        assert(s.contains(s[s.len() - 1]));
        assert(s =~= d + seq![s.last()]);
    }
}

/// Whether a text is a path on this site: it starts with one slash and holds no backslash.
pub open spec fn local_path(p: Seq<char>) -> bool {
    &&& p.len() > 0
    &&& p[0] == '/'
    &&& p.len() > 1 ==> p[1] != '/'
    &&& !p.contains('\\')
}

/// Where to go next: the path that was asked for, if it is one on this site, or the start page.
pub open spec fn next_path(next: Seq<char>) -> Seq<char> {
    if local_path(next) {
        next
    } else {
        "/"@
    }
}

/// Where to go next. Only local paths survive; never an off-site redirect.
pub fn safe_next(next: &str) -> (r: String)
    ensures
        r@ == next_path(next@),
        local_path(r@),
{
    let n: usize = next.unicode_len();
    let ok = n > 0 && next.get_char(0) == '/' && !(n > 1 && next.get_char(1) == '/')
        && !text::contains_char(next, '\\');
    if ok {
        next.to_owned()
    } else {
        proof {
            reveal_strlit("/");
        }
        "/".to_owned()
    }
}

} // verus!
