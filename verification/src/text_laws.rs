//! What holds of texts that are cut, split, joined, trimmed and written.

use crate::crypto;
use crate::text;
use vstd::prelude::*;
use vstd::string::*;

verus! {

/// A text is cut at the first separator: what stands before it does not hold it, and the parts make up
/// the whole. It is not cut where it does not hold the separator.
pub proof fn cut_in_two(s: Seq<char>, c: char)
    ensures
        text::split_once(s, c) is Some <==> s.contains(c),
        text::split_once(s, c) matches Some(p) ==> s == p.0 + seq![c] + p.1 && !p.0.contains(c),
{
    text::find_finds(s, c);
    if s.contains(c) {
        let n = text::find(s, c);
        let a = s.take(n);
        assert(s =~= a + seq![c] + s.skip(n + 1));
        if a.contains(c) {
            let k = choose|k: int| 0 <= k < a.len() && a[k] == c;
            assert(s[k] == c);
        }
    }
}

/// The pieces of a text hold no separator, and with separators between them they make up the text.
pub proof fn pieces_make_up_the_text(s: Seq<char>, c: char)
    ensures
        text::split(s, c).len() > 0,
        forall|i: int| 0 <= i < text::split(s, c).len() ==> !(#[trigger] text::split(s, c)[i]).contains(c),
        text::join(text::split(s, c), seq![c]) == s,
    decreases s.len(),
{
    text::find_finds(s, c);
    let v = text::split(s, c);
    if s.contains(c) {
        cut_in_two(s, c);
        let n = text::find(s, c);
        let a = s.take(n);
        let b = s.skip(n + 1);
        pieces_make_up_the_text(b, c);
        let w = text::split(b, c);
        assert(v == seq![a] + w);
        assert forall|i: int| 0 <= i < v.len() implies !(#[trigger] v[i]).contains(c) by {
            if i > 0 {
                assert(v[i] == w[i - 1]);
            }
        }
        join_front(a, w, seq![c]);
        assert(a + seq![c] + b =~= s);
    } else {
        assert(v =~= seq![s]);
    }
}

proof fn join_front(a: Seq<char>, w: Seq<Seq<char>>, sep: Seq<char>)
    requires
        w.len() > 0,
    ensures
        text::join(seq![a] + w, sep) == a + sep + text::join(w, sep),
    decreases w.len(),
{
    let v = seq![a] + w;
    assert(v.last() == w.last());
    if w.len() == 1 {
        assert(v.drop_last() =~= seq![a]);
        assert(text::join(v.drop_last(), sep) == a);
        assert(text::join(w, sep) == w[0]);
    } else {
        assert(v.drop_last() =~= seq![a] + w.drop_last());
        join_front(a, w.drop_last(), sep);
        assert(text::join(v, sep) =~= a + sep + text::join(w, sep));
    }
}

/// A text begins with another exactly if something can be put behind the other that makes up the text, and
/// that is what follows it.
pub proof fn prefixes_begin_texts(p: Seq<char>, rest: Seq<char>, s: Seq<char>)
    ensures
        text::has_prefix(p + rest, p),
        text::after_prefix(p + rest, p) == Some(rest),
        text::has_prefix(s, p) <==> text::after_prefix(s, p) is Some,
        text::after_prefix(s, p) matches Some(r) ==> s == p + r,
{
    assert((p + rest).take(p.len() as int) =~= p);
    assert((p + rest).skip(p.len() as int) =~= rest);
    if text::has_prefix(s, p) {
        assert(s =~= p + s.skip(p.len() as int));
    }
}

/// Whether all of a text is white space.
pub open spec fn blank(s: Seq<char>) -> bool {
    forall|i: int| 0 <= i < s.len() ==> text::white_space(#[trigger] s[i])
}

proof fn start_is_cut(s: Seq<char>) -> (a: Seq<char>)
    ensures
        blank(a),
        s == a + text::trim_start(s),
        text::trim_start(s).len() > 0 ==> !text::white_space(text::trim_start(s)[0]),
    decreases s.len(),
{
    if s.len() > 0 && text::white_space(s[0]) {
        let b = start_is_cut(s.skip(1));
        let a = seq![s[0]] + b;
        assert(s =~= seq![s[0]] + s.skip(1));
        assert(text::trim_start(s) == text::trim_start(s.skip(1)));
        assert(s =~= a + text::trim_start(s));
        a
    } else {
        assert(s =~= Seq::<char>::empty() + s);
        Seq::empty()
    }
}

proof fn end_is_cut(s: Seq<char>) -> (b: Seq<char>)
    ensures
        blank(b),
        s == text::trim_end(s) + b,
        text::trim_end(s).len() > 0 ==> !text::white_space(text::trim_end(s).last()),
    decreases s.len(),
{
    if s.len() > 0 && text::white_space(s.last()) {
        let a = end_is_cut(s.drop_last());
        let b = a.push(s.last());
        assert(s =~= s.drop_last().push(s.last()));
        assert(text::trim_end(s) == text::trim_end(s.drop_last()));
        assert(s =~= text::trim_end(s) + b);
        b
    } else {
        assert(s =~= s + Seq::<char>::empty());
        Seq::empty()
    }
}

/// Trimming takes away white space at both ends and nothing else, and leaves none there. Spaces, tabs and
/// line ends are white space; letters, digits, signs and all other visible ASCII characters are not.
pub proof fn trimming_takes_white_space(s: Seq<char>)
    ensures
        ({
            let t = text::trimmed(s);
            &&& exists|a: Seq<char>, b: Seq<char>| #[trigger] (a + t + b) == s && blank(a) && blank(b)
            &&& t.len() > 0 ==> !text::white_space(t[0]) && !text::white_space(t.last())
        }),
        text::white_space(' ') && text::white_space('\t') && text::white_space('\n') && text::white_space('\r'),
        forall|c: char| '!' <= c && c <= '~' ==> !#[trigger] text::white_space(c),
{
    let a = start_is_cut(s);
    let m = text::trim_start(s);
    let b = end_is_cut(m);
    let t = text::trimmed(s);
    assert(a + t + b =~= s);
    if t.len() > 0 {
        assert(m[0] == t[0]);
    }
}

/// What already has no white space at its ends stays as it is.
pub proof fn trimmed_texts_stay(s: Seq<char>)
    requires
        s.len() > 0 ==> !text::white_space(s[0]) && !text::white_space(s.last()),
    ensures
        text::trimmed(s) == s,
{
}

/// Trailing characters are taken away, all of them, and nothing else.
pub proof fn trailing_ones_are_taken(s: Seq<char>, c: char)
    ensures
        ({
            let t = text::without_trailing(s, c);
            &&& t.len() <= s.len() && s.take(t.len() as int) == t
            &&& forall|i: int| t.len() <= i < s.len() ==> #[trigger] s[i] == c
            &&& t.len() > 0 ==> t.last() != c
        }),
    decreases s.len(),
{
    let t = text::without_trailing(s, c);
    if s.len() > 0 && s.last() == c {
        let d = s.drop_last();
        trailing_ones_are_taken(d, c);
        assert(s.take(t.len() as int) =~= d.take(t.len() as int));
        assert forall|i: int| t.len() <= i < s.len() implies #[trigger] s[i] == c by {
            if i < d.len() {
                assert(d[i] == s[i]);
            }
        }
    } else {
        assert(s.take(s.len() as int) =~= s);
    }
}

/// The number that decimal digits stand for.
pub open spec fn number(s: Seq<char>) -> int
    decreases s.len(),
{
    if s.len() == 0 {
        0
    } else {
        10 * number(s.drop_last()) + (s.last() as int - '0' as int)
    }
}

/// The decimal form of a number consists of digits, has no zero in front unless it is one, and stands for
/// the number.
pub proof fn decimals_stand_for_numbers(n: nat)
    ensures
        number(text::decimal(n)) == n,
        text::decimal(n).len() > 0,
        forall|i: int|
            0 <= i < text::decimal(n).len() ==> '0' <= #[trigger] text::decimal(n)[i] && text::decimal(n)[i] <= '9',
        text::decimal(n).len() > 1 ==> text::decimal(n)[0] != '0',
    decreases n,
{
    let s = text::decimal(n);
    if n < 10 {
        assert(s.drop_last() =~= Seq::empty());
        assert(number(s.drop_last()) == 0);
        assert(s.last() == text::digit(n));
    } else {
        let d = text::decimal(n / 10);
        decimals_stand_for_numbers(n / 10);
        assert(s.drop_last() =~= d);
        assert(s.last() == text::digit(n % 10));
        assert(s[0] == d[0]);
        assert forall|i: int| 0 <= i < s.len() implies '0' <= #[trigger] s[i] && s[i] <= '9' by {
            if i < d.len() {
                assert(s[i] == d[i]);
            }
        }
        if d.len() == 1 {
            assert(d.drop_last() =~= Seq::empty());
            assert(number(d.drop_last()) == 0);
            assert(number(d) == d[0] as int - '0' as int);
        }
    }
}

/// The value of a hexadecimal digit.
pub open spec fn hex_number(c: char) -> int {
    if '0' <= c && c <= '9' {
        c as int - '0' as int
    } else {
        c as int - 'a' as int + 10
    }
}

/// Bytes in hexadecimal have two digits each, in lower case, which stand for the byte.
pub proof fn hexadecimals_stand_for_bytes(b: Seq<u8>)
    ensures
        crypto::hex_text(b).len() == 2 * b.len(),
        forall|i: int|
            0 <= i < b.len() ==> 16 * hex_number(crypto::hex_text(b)[2 * i]) + hex_number(
                crypto::hex_text(b)[2 * i + 1],
            ) == #[trigger] b[i],
    decreases b.len(),
{
    if b.len() > 0 {
        let d = b.drop_last();
        hexadecimals_stand_for_bytes(d);
        let s = crypto::hex_text(b);
        let t = crypto::hex_text(d);
        let x = b.last() as int;
        assert forall|i: int| 0 <= i < b.len() implies 16 * hex_number(s[2 * i]) + hex_number(s[2 * i + 1])
            == #[trigger] b[i] by {
            if i < d.len() {
                assert(d[i] == b[i]);
                assert(s[2 * i] == t[2 * i]);
                assert(s[2 * i + 1] == t[2 * i + 1]);
            } else {
                assert(s[2 * i] == crypto::hex_digit(x / 16));
                assert(s[2 * i + 1] == crypto::hex_digit(x % 16));
            }
        }
    }
}

} // verus!
