//! Text: comparing, splitting, trimming and building strings.

use vstd::prelude::*;
use vstd::string::*;
use vstd::utf8::*;

verus! {

/// `String::push` appends one character.
pub assume_specification[ String::push ](s: &mut String, c: char)
    ensures
        final(s)@ == old(s)@.push(c),
;

/// The view of an optional string.
pub open spec fn opt_view(s: Option<String>) -> Option<Seq<char>> {
    match s {
        Some(t) => Some(t@),
        None => None,
    }
}

/// The view of a list of strings.
pub open spec fn list_view(v: Seq<String>) -> Seq<Seq<char>> {
    v.map_values(|s: String| s@)
}

/// A copy of an optional string.
pub fn copy_opt(s: &Option<String>) -> (r: Option<String>)
    ensures
        opt_view(r) == opt_view(*s),
{
    match s {
        Some(t) => Some(t.clone()),
        None => None,
    }
}

/// A copy of a list of strings.
pub fn copy_list(v: &Vec<String>) -> (r: Vec<String>)
    ensures
        list_view(r@) == list_view(v@),
{
    let mut out: Vec<String> = Vec::new();
    let mut i: usize = 0;
    while i < v.len()
        invariant
            i <= v@.len(),
            out@.len() == i,
            forall|j: int| 0 <= j < i ==> out@[j]@ == v@[j]@,
        decreases v.len() - i,
    {
        out.push(v[i].clone());
        i += 1;
    }
    assert(list_view(out@) =~= list_view(v@));
    out
}

/// Distinct texts have distinct UTF-8 encodings.
pub proof fn encode_utf8_injective(a: Seq<char>, b: Seq<char>)
    ensures
        encode_utf8(a) == encode_utf8(b) <==> a == b,
{
    encode_utf8_decode_utf8(a);
    encode_utf8_decode_utf8(b);
}

/// Whether two byte strings are equal, in time that depends on their length alone: the differences
/// of all byte pairs are collected before the answer is given. The contract is about the answer, not
/// about the time.
pub fn ct_eq(a: &[u8], b: &[u8]) -> (r: bool)
    ensures
        r == (a@ == b@),
{
    if a.len() != b.len() {
        return false;
    }
    let mut acc: u8 = 0;
    let mut i: usize = 0;
    assert(a@.take(0) =~= b@.take(0));
    while i < a.len()
        invariant
            i <= a.len(),
            a.len() == b.len(),
            acc == 0 <==> a@.take(i as int) == b@.take(i as int),
        decreases a.len() - i,
    {
        let x: u8 = a[i];
        let y: u8 = b[i];
        let next: u8 = acc | (x ^ y);
        proof {
            assert(acc | (x ^ y) == 0u8 <==> (acc == 0u8 && x == y)) by (bit_vector);
            let ta = a@.take(i + 1);
            let tb = b@.take(i + 1);
            assert(ta.drop_last() =~= a@.take(i as int));
            assert(tb.drop_last() =~= b@.take(i as int));
            assert(ta =~= ta.drop_last().push(x));
            assert(tb =~= tb.drop_last().push(y));
            assert(ta.last() == x && tb.last() == y);
        }
        acc = next;
        i += 1;
    }
    proof {
        assert(a@.take(i as int) =~= a@);
        assert(b@.take(i as int) =~= b@);
    }
    acc == 0
}

/// Whether two texts are the same.
pub fn same(a: &str, b: &str) -> (r: bool)
    ensures
        r == (a@ == b@),
{
    proof {
        encode_utf8_injective(a@, b@);
    }
    ct_eq(a.as_bytes(), b.as_bytes())
}

// ---------------------------------------------------------------------------------------------
// Searching
// ---------------------------------------------------------------------------------------------

/// The characters of a text.
fn chars_of(s: &str) -> (r: Vec<char>)
    ensures
        r@ == s@,
{
    let mut out: Vec<char> = Vec::new();
    for c in it: s.chars()
        invariant
            out@ == s@.take(it.index() as int),
            it.seq() == s@,
    {
        out.push(c);
        assert(s@.take(it.index() + 1) =~= s@.take(it.index() as int).push(c));
    }
    assert(s@.take(s@.len() as int) =~= s@);
    out
}

/// The position of the first `c` in `s`, or the length of `s` where there is none.
pub open spec fn find(s: Seq<char>, c: char) -> int
    decreases s.len(),
{
    if s.len() == 0 || s[0] == c {
        0
    } else {
        1 + find(s.skip(1), c)
    }
}

/// What `find` finds: nothing before it is `c`, and it is `c` itself unless it is the end.
pub proof fn find_finds(s: Seq<char>, c: char)
    ensures
        0 <= find(s, c) <= s.len(),
        forall|j: int| 0 <= j < find(s, c) ==> s[j] != c,
        find(s, c) < s.len() ==> s[find(s, c)] == c,
        find(s, c) < s.len() <==> s.contains(c),
    decreases s.len(),
{
    if s.len() == 0 || s[0] == c {
        if s.len() > 0 {
            assert(s.contains(s[0]));
        }
    } else {
        let t = s.skip(1);
        find_finds(t, c);
        assert forall|j: int| 0 <= j < find(s, c) implies s[j] != c by {
            if j > 0 {
                assert(t[j - 1] == s[j]);
            }
        }
        if s.contains(c) {
            let j = choose|j: int| 0 <= j < s.len() && s[j] == c;
            assert(t[j - 1] == c);
            assert(t.contains(c));
        }
        if find(s, c) < s.len() {
            assert(s[find(s, c)] == t[find(t, c)]);
            assert(s.contains(s[find(s, c)]));
        }
    }
}

/// The position described by `find_finds` is the only one of its kind.
pub proof fn find_is(s: Seq<char>, c: char, i: int)
    requires
        0 <= i <= s.len(),
        forall|j: int| 0 <= j < i ==> s[j] != c,
        i < s.len() ==> s[i] == c,
    ensures
        find(s, c) == i,
{
    find_finds(s, c);
}

/// The position of the first `c`, counted in characters.
fn find_char(s: &str, c: char) -> (r: usize)
    ensures
        r == find(s@, c),
        r <= s@.len(),
{
    let t: Vec<char> = chars_of(s);
    let n: usize = t.len();
    let mut i: usize = 0;
    while i < n
        invariant
            t@ == s@,
            n == s@.len(),
            i <= n,
            forall|j: int| 0 <= j < i ==> s@[j] != c,
        decreases n - i,
    {
        if t[i] == c {
            proof {
                find_is(s@, c, i as int);
            }
            return i;
        }
        i += 1;
    }
    proof {
        find_is(s@, c, i as int);
    }
    n
}

/// Whether `c` occurs in `s`.
pub fn contains_char(s: &str, c: char) -> (r: bool)
    ensures
        r == s@.contains(c),
{
    proof {
        find_finds(s@, c);
    }
    find_char(s, c) < s.unicode_len()
}

/// Whether `s` begins with `p`.
pub open spec fn has_prefix(s: Seq<char>, p: Seq<char>) -> bool {
    p.len() <= s.len() && s.take(p.len() as int) == p
}

/// What follows the prefix `p` of `s`, where `s` begins with it.
pub open spec fn after_prefix(s: Seq<char>, p: Seq<char>) -> Option<Seq<char>> {
    if has_prefix(s, p) {
        Some(s.skip(p.len() as int))
    } else {
        None
    }
}

/// Whether `s` begins with `p`.
pub fn starts_with(s: &str, p: &str) -> (r: bool)
    ensures
        r == has_prefix(s@, p@),
{
    let n: usize = p.unicode_len();
    if n > s.unicode_len() {
        return false;
    }
    same(s.substring_char(0, n), p)
}

/// What follows the prefix `p` of `s`, where `s` begins with it.
pub fn strip_prefix(s: &str, p: &str) -> (r: Option<String>)
    ensures
        opt_view(r) == after_prefix(s@, p@),
{
    if starts_with(s, p) {
        Some(s.substring_char(p.unicode_len(), s.unicode_len()).to_owned())
    } else {
        None
    }
}

// ---------------------------------------------------------------------------------------------
// Splitting
// ---------------------------------------------------------------------------------------------

/// The pieces of `s` between the occurrences of `c`: one more than there are occurrences.
pub open spec fn split(s: Seq<char>, c: char) -> Seq<Seq<char>>
    decreases s.len(),
{
    if s.contains(c) && 0 <= find(s, c) < s.len() {
        seq![s.take(find(s, c))] + split(s.skip(find(s, c) + 1), c)
    } else {
        seq![s]
    }
}

/// The text before the first `c` of `s` and the text after it.
pub open spec fn split_once(s: Seq<char>, c: char) -> Option<(Seq<char>, Seq<char>)> {
    if s.contains(c) {
        Some((s.take(find(s, c)), s.skip(find(s, c) + 1)))
    } else {
        None
    }
}

/// The text after the last `c` of `s`, or `s` itself where there is none.
pub open spec fn after_last(s: Seq<char>, c: char) -> Seq<char> {
    split(s, c).last()
}

/// A text without `c`, then `c`, then any text: the first piece is the text before.
pub proof fn split_front(a: Seq<char>, c: char, b: Seq<char>)
    requires
        !a.contains(c),
    ensures
        split(a + seq![c] + b, c) == seq![a] + split(b, c),
        split_once(a + seq![c] + b, c) == Some((a, b)),
{
    let s = a + seq![c] + b;
    assert(s[a.len() as int] == c);
    assert(s.contains(c));
    assert forall|j: int| 0 <= j < a.len() implies s[j] != c by {
        assert(s[j] == a[j]);
    }
    find_is(s, c, a.len() as int);
    assert(s.take(a.len() as int) =~= a);
    assert(s.skip(a.len() as int + 1) =~= b);
}

/// A text without `c` is its only piece.
pub proof fn split_whole(a: Seq<char>, c: char)
    requires
        !a.contains(c),
    ensures
        split(a, c) == seq![a],
        split_once(a, c) is None,
{
}

/// There is at least one piece.
pub proof fn split_not_empty(s: Seq<char>, c: char)
    ensures
        split(s, c).len() > 0,
{
}

/// The pieces of `s` between the occurrences of `c`.
pub fn split_on(s: &str, c: char) -> (r: Vec<String>)
    ensures
        list_view(r@) == split(s@, c),
{
    let t: Vec<char> = chars_of(s);
    let n: usize = t.len();
    let mut out: Vec<String> = Vec::new();
    let mut start: usize = 0;
    let mut i: usize = 0;
    proof {
        assert(s@.skip(0) =~= s@);
        assert(list_view(out@) + split(s@, c) =~= split(s@, c));
    }
    while i < n
        invariant
            t@ == s@,
            n == s@.len(),
            start <= i <= n,
            forall|j: int| start <= j < i ==> s@[j] != c,
            list_view(out@) + split(s@.skip(start as int), c) == split(s@, c),
        decreases n - i,
    {
        if t[i] == c {
            let piece: &str = s.substring_char(start, i);
            let ghost before = list_view(out@);
            out.push(piece.to_owned());
            proof {
                let a = piece@;
                let b = s@.skip(i + 1);
                assert(s@.skip(start as int) =~= a + seq![c] + b);
                assert(!a.contains(c));
                split_front(a, c, b);
                assert(list_view(out@) =~= before.push(a));
                assert(before + (seq![a] + split(b, c)) =~= before.push(a) + split(b, c));
            }
            start = i + 1;
        }
        i += 1;
    }
    let piece: &str = s.substring_char(start, n);
    let ghost before = list_view(out@);
    out.push(piece.to_owned());
    proof {
        assert(s@.skip(start as int) =~= piece@);
        assert(!piece@.contains(c));
        split_whole(piece@, c);
        assert(list_view(out@) =~= before + seq![piece@]);
    }
    out
}

/// The text before the first `c` and the text after it.
pub fn cut(s: &str, c: char) -> (r: Option<(String, String)>)
    ensures
        match r {
            Some(p) => split_once(s@, c) == Some((p.0@, p.1@)),
            None => split_once(s@, c) is None,
        },
{
    let i: usize = find_char(s, c);
    let n: usize = s.unicode_len();
    proof {
        find_finds(s@, c);
    }
    if i < n {
        let a: String = s.substring_char(0, i).to_owned();
        let b: String = s.substring_char(i + 1, n).to_owned();
        assert(a@ =~= s@.take(i as int));
        assert(b@ =~= s@.skip(i + 1));
        Some((a, b))
    } else {
        None
    }
}

/// Whether `x` is one of the pieces of `s` between the occurrences of `c`.
pub fn has_piece(s: &str, c: char, x: &str) -> (r: bool)
    ensures
        r == split(s@, c).contains(x@),
{
    list_contains(&split_on(s, c), x)
}

/// Whether `x` is in the list.
pub fn list_contains(v: &Vec<String>, x: &str) -> (r: bool)
    ensures
        r == list_view(v@).contains(x@),
{
    let mut i: usize = 0;
    while i < v.len()
        invariant
            i <= v.len(),
            forall|j: int| 0 <= j < i ==> v@[j]@ != x@,
        decreases v.len() - i,
    {
        if same(v[i].as_str(), x) {
            assert(list_view(v@)[i as int] == x@);
            return true;
        }
        i += 1;
    }
    assert forall|j: int| 0 <= j < list_view(v@).len() implies list_view(v@)[j] != x@ by {
        assert(list_view(v@)[j] == v@[j]@);
    }
    false
}

/// The texts that pass a test; the test tells what the predicate picks.
pub(crate) fn keep(
    v: &Vec<String>,
    Ghost(p): Ghost<spec_fn(Seq<char>) -> bool>,
    test: impl Fn(&String) -> bool,
) -> (r: Vec<String>)
    requires
        forall|s: &String| #[trigger] test.requires((s,)),
        forall|s: &String, b: bool| #[trigger] test.ensures((s,), b) ==> b == p(s@),
    ensures
        list_view(r@) == list_view(v@).filter(p),
{
    let ghost all = list_view(v@);
    let mut out: Vec<String> = Vec::new();
    let mut i: usize = 0;
    proof {
        reveal(Seq::filter);
        assert(all.take(0) =~= Seq::<Seq<char>>::empty());
    }
    while i < v.len()
        invariant
            i <= v@.len(),
            all == list_view(v@),
            forall|s: &String| #[trigger] test.requires((s,)),
            forall|s: &String, b: bool| #[trigger] test.ensures((s,), b) ==> b == p(s@),
            list_view(out@) =~= all.take(i as int).filter(p),
        decreases v.len() - i,
    {
        let ghost before = out@;
        proof {
            reveal(Seq::filter);
            assert(all.take(i + 1).drop_last() =~= all.take(i as int));
            assert(all.take(i + 1).last() == v@[i as int]@);
        }
        if test(&v[i]) {
            out.push(v[i].clone());
            assert(list_view(out@) =~= list_view(before).push(v@[i as int]@));
        }
        i += 1;
    }
    assert(all.take(i as int) =~= all);
    out
}

/// Whether all texts pass a test; the test tells what the predicate picks.
pub(crate) fn all_pass(
    v: &Vec<String>,
    Ghost(p): Ghost<spec_fn(Seq<char>) -> bool>,
    test: impl Fn(&String) -> bool,
) -> (r: bool)
    requires
        forall|s: &String| #[trigger] test.requires((s,)),
        forall|s: &String, b: bool| #[trigger] test.ensures((s,), b) ==> b == p(s@),
    ensures
        r == (forall|i: int| 0 <= i < v@.len() ==> p(#[trigger] list_view(v@)[i])),
{
    let mut i: usize = 0;
    while i < v.len()
        invariant
            i <= v@.len(),
            forall|s: &String| #[trigger] test.requires((s,)),
            forall|s: &String, b: bool| #[trigger] test.ensures((s,), b) ==> b == p(s@),
            forall|j: int| 0 <= j < i ==> p(#[trigger] list_view(v@)[j]),
        decreases v.len() - i,
    {
        assert(list_view(v@)[i as int] == v@[i as int]@);
        if !test(&v[i]) {
            return false;
        }
        i += 1;
    }
    true
}

/// The texts of `v` with `sep` between them.
pub open spec fn join(v: Seq<Seq<char>>, sep: Seq<char>) -> Seq<char>
    decreases v.len(),
{
    if v.len() == 0 {
        Seq::<char>::empty()
    } else if v.len() == 1 {
        v[0]
    } else {
        join(v.drop_last(), sep) + sep + v.last()
    }
}

/// Any text, then `c`, then a text without `c`: the last piece is the text after.
pub proof fn split_back(a: Seq<char>, c: char, b: Seq<char>)
    requires
        !b.contains(c),
    ensures
        split(a + seq![c] + b, c) == split(a, c) + seq![b],
    decreases a.len(),
{
    if a.contains(c) {
        find_finds(a, c);
        let i = find(a, c);
        let h = a.take(i);
        let t = a.skip(i + 1);
        assert(a =~= h + seq![c] + t);
        assert(!h.contains(c)) by {
            assert forall|j: int| 0 <= j < h.len() implies h[j] != c by {
                assert(h[j] == a[j]);
            }
        }
        split_front(h, c, t);
        assert(a + seq![c] + b =~= h + seq![c] + (t + seq![c] + b));
        split_front(h, c, t + seq![c] + b);
        split_back(t, c, b);
        assert(seq![h] + (split(t, c) + seq![b]) =~= (seq![h] + split(t, c)) + seq![b]);
    } else {
        split_front(a, c, b);
        split_whole(a, c);
        split_whole(b, c);
    }
}

/// Splitting undoes joining, where no text holds the separator.
pub proof fn split_join(v: Seq<Seq<char>>, c: char)
    requires
        v.len() > 0,
        forall|i: int| 0 <= i < v.len() ==> !(#[trigger] v[i]).contains(c),
    ensures
        split(join(v, seq![c]), c) == v,
    decreases v.len(),
{
    if v.len() == 1 {
        split_whole(v[0], c);
        assert(v =~= seq![v[0]]);
    } else {
        assert(v.last() == v[v.len() - 1]);
        split_join(v.drop_last(), c);
        split_back(join(v.drop_last(), seq![c]), c, v.last());
        assert(v.drop_last() + seq![v.last()] =~= v);
    }
}

/// The texts of `v` with `sep` between them.
pub fn join_list(v: &Vec<String>, sep: &str) -> (r: String)
    ensures
        r@ == join(list_view(v@), sep@),
{
    let mut out: String = String::new();
    let mut i: usize = 0;
    assert(list_view(v@).take(0) =~= Seq::<Seq<char>>::empty());
    while i < v.len()
        invariant
            i <= v.len(),
            out@ == join(list_view(v@).take(i as int), sep@),
        decreases v.len() - i,
    {
        let ghost t = list_view(v@).take(i + 1);
        proof {
            assert(t.drop_last() =~= list_view(v@).take(i as int));
            assert(t.last() == v@[i as int]@);
        }
        if i > 0 {
            out.append(sep);
        }
        out.append(v[i].as_str());
        proof {
            if i == 0 {
                assert(t[0] == v@[0]@);
                assert(out@ =~= v@[0]@);
            }
        }
        i += 1;
    }
    assert(list_view(v@).take(i as int) =~= list_view(v@));
    out
}

// ---------------------------------------------------------------------------------------------
// Trimming
// ---------------------------------------------------------------------------------------------

/// The characters that Unicode calls white space.
pub open spec fn white_space(c: char) -> bool {
    let n = c as u32;
    ||| 0x9 <= n <= 0xd
    ||| n == 0x20
    ||| n == 0x85
    ||| n == 0xa0
    ||| n == 0x1680
    ||| 0x2000 <= n <= 0x200a
    ||| n == 0x2028
    ||| n == 0x2029
    ||| n == 0x202f
    ||| n == 0x205f
    ||| n == 0x3000
}

/// Whether `c` is white space.
pub fn is_white_space(c: char) -> (r: bool)
    ensures
        r == white_space(c),
{
    let n: u32 = c as u32;
    (0x9 <= n && n <= 0xd) || n == 0x20 || n == 0x85 || n == 0xa0 || n == 0x1680 || (0x2000 <= n
        && n <= 0x200a) || n == 0x2028 || n == 0x2029 || n == 0x202f || n == 0x205f || n == 0x3000
}

/// `s` without its leading white space.
pub open spec fn trim_start(s: Seq<char>) -> Seq<char>
    decreases s.len(),
{
    if s.len() > 0 && white_space(s[0]) {
        trim_start(s.skip(1))
    } else {
        s
    }
}

/// `s` without its trailing white space.
pub open spec fn trim_end(s: Seq<char>) -> Seq<char>
    decreases s.len(),
{
    if s.len() > 0 && white_space(s.last()) {
        trim_end(s.drop_last())
    } else {
        s
    }
}

/// `s` without white space at either end.
pub open spec fn trimmed(s: Seq<char>) -> Seq<char> {
    trim_end(trim_start(s))
}

/// `s` without white space at either end.
pub fn trim(s: &str) -> (r: String)
    ensures
        r@ == trimmed(s@),
{
    let t: Vec<char> = chars_of(s);
    let n: usize = t.len();
    let mut i: usize = 0;
    assert(s@.skip(0) =~= s@);
    while i < n && is_white_space(t[i])
        invariant
            t@ == s@,
            n == s@.len(),
            i <= n,
            trim_start(s@.skip(i as int)) == trim_start(s@),
        decreases n - i,
    {
        assert(s@.skip(i as int).skip(1) =~= s@.skip(i + 1));
        i += 1;
    }
    assert(trim_start(s@) == s@.skip(i as int));
    let mut k: usize = n;
    assert(s@.subrange(i as int, n as int) =~= s@.skip(i as int));
    while i < k && is_white_space(t[k - 1])
        invariant
            t@ == s@,
            n == s@.len(),
            i <= k <= n,
            trim_end(s@.subrange(i as int, k as int)) == trim_end(s@.skip(i as int)),
        decreases k - i,
    {
        assert(s@.subrange(i as int, k as int).drop_last() =~= s@.subrange(i as int, k - 1));
        k -= 1;
    }
    s.substring_char(i, k).to_owned()
}

/// `s` without the trailing occurrences of `c`.
pub open spec fn without_trailing(s: Seq<char>, c: char) -> Seq<char>
    decreases s.len(),
{
    if s.len() > 0 && s.last() == c {
        without_trailing(s.drop_last(), c)
    } else {
        s
    }
}

/// `s` without the trailing occurrences of `c`.
pub fn trim_end_matches(s: &str, c: char) -> (r: String)
    ensures
        r@ == without_trailing(s@, c),
{
    let t: Vec<char> = chars_of(s);
    let mut k: usize = t.len();
    assert(s@.take(k as int) =~= s@);
    while 0 < k && t[k - 1] == c
        invariant
            t@ == s@,
            k <= s@.len(),
            without_trailing(s@.take(k as int), c) == without_trailing(s@, c),
        decreases k,
    {
        assert(s@.take(k as int).drop_last() =~= s@.take(k - 1));
        k -= 1;
    }
    s.substring_char(0, k).to_owned()
}

/// The lower-case form of a text under Unicode's rules, as `str::to_lowercase` gives it.
pub uninterp spec fn lowercase(s: Seq<char>) -> Seq<char>;

/// `str::to_lowercase` gives the lower-case form of a text: a function of the text alone.
pub assume_specification[ str::to_lowercase ](s: &str) -> (r: String)
    ensures
        r@ == lowercase(s@),
;

// ---------------------------------------------------------------------------------------------
// Numbers
// ---------------------------------------------------------------------------------------------

/// The decimal digit of a number below ten.
pub open spec fn digit(n: nat) -> char {
    (48 + n) as char
}

/// The decimal form of a number.
pub open spec fn decimal(n: nat) -> Seq<char>
    decreases n,
{
    if n < 10 {
        seq![digit(n)]
    } else {
        decimal(n / 10).push(digit(n % 10))
    }
}

/// The decimal form of a number.
pub fn to_decimal(n: u64) -> (r: String)
    ensures
        r@ == decimal(n as nat),
    decreases n,
{
    let d: u8 = (n % 10) as u8;
    let c: char = (48 + d) as char;
    let mut out: String = if n < 10 {
        String::new()
    } else {
        to_decimal(n / 10)
    };
    out.push(c);
    assert(n < 10 ==> out@ =~= seq![c]);
    out
}

/// The length of a text in bytes.
pub open spec fn byte_len(s: Seq<char>) -> nat {
    encode_utf8(s).len()
}

/// The length of a text in bytes.
pub fn len_in_bytes(s: &str) -> (r: usize)
    ensures
        r == byte_len(s@),
{
    s.as_bytes().len()
}

/// A text is empty in bytes where it is empty in characters.
pub proof fn byte_len_zero(s: Seq<char>)
    ensures
        byte_len(s) == 0 <==> s.len() == 0,
{
    encode_utf8_injective(s, Seq::<char>::empty());
    assert(encode_utf8(Seq::<char>::empty()) =~= Seq::<u8>::empty());
    if byte_len(s) == 0 {
        assert(encode_utf8(s) =~= Seq::<u8>::empty());
    }
    if s.len() == 0 {
        assert(s =~= Seq::<char>::empty());
    }
}

} // verus!
