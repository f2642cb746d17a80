//! Percent-encoding of URL parameters and base64.

use crate::text;
use base64::Engine;
use vstd::prelude::*;
use vstd::utf8::*;

verus! {

// ---------------------------------------------------------------------------------------------
// Percent-encoding
// ---------------------------------------------------------------------------------------------

/// The bytes that percent-encoding leaves as they are: letters, digits and `-`, `.`, `_`, `~`.
pub open spec fn unreserved(b: u8) -> bool {
    ||| 48 <= b <= 57
    ||| 65 <= b <= 90
    ||| 97 <= b <= 122
    ||| b == 45
    ||| b == 46
    ||| b == 95
    ||| b == 126
}

/// The upper-case hexadecimal digit of a number below sixteen, as a byte.
pub open spec fn hex_upper(n: int) -> u8 {
    if n < 10 {
        (48 + n) as u8
    } else {
        (55 + n) as u8
    }
}

/// The value of a hexadecimal digit of either case.
pub open spec fn hex_value(b: u8) -> Option<int> {
    if 48 <= b <= 57 {
        Some(b - 48)
    } else if 65 <= b <= 70 {
        Some(b - 55)
    } else if 97 <= b <= 102 {
        Some(b - 87)
    } else {
        None
    }
}

/// One byte, percent-encoded.
pub open spec fn percent_byte(b: u8) -> Seq<u8> {
    if unreserved(b) {
        seq![b]
    } else {
        seq![37u8, hex_upper(b as int / 16), hex_upper(b as int % 16)]
    }
}

/// Bytes, percent-encoded one by one.
pub open spec fn percent_encode(b: Seq<u8>) -> Seq<u8>
    decreases b.len(),
{
    if b.len() == 0 {
        Seq::<u8>::empty()
    } else {
        percent_byte(b[0]) + percent_encode(b.skip(1))
    }
}

/// Bytes with every `%` that two hexadecimal digits follow replaced by the byte they stand for; any
/// other `%` stays.
pub open spec fn percent_decode(b: Seq<u8>) -> Seq<u8>
    decreases b.len(),
{
    if b.len() == 0 {
        Seq::<u8>::empty()
    } else if b.len() >= 3 && b[0] == 37 && hex_value(b[1]) is Some && hex_value(b[2]) is Some {
        seq![(hex_value(b[1])->0 * 16 + hex_value(b[2])->0) as u8] + percent_decode(b.skip(3))
    } else {
        seq![b[0]] + percent_decode(b.skip(1))
    }
}

/// A text as a URL parameter: its UTF-8 bytes, percent-encoded.
pub open spec fn url_encoded(s: Seq<char>) -> Seq<char> {
    percent_encode(encode_utf8(s)).map_values(|b: u8| b as char)
}

/// The text that a URL parameter stands for, unless its bytes are not UTF-8.
pub open spec fn url_decoded(s: Seq<char>) -> Option<Seq<char>> {
    let d = percent_decode(encode_utf8(s));
    if valid_utf8(d) {
        Some(decode_utf8(d))
    } else {
        None
    }
}

/// A text as a URL parameter. `urlencoding::encode` percent-encodes every byte of the text's UTF-8
/// form but letters, digits and `-`, `_`, `.`, `~`, with upper-case digits.
#[verifier::external_body]
pub(crate) fn url_encode(s: &str) -> (r: String)
    ensures
        r@ == url_encoded(s@),
{
    urlencoding::encode(s).into_owned()
}

/// The text that a URL parameter stands for. `urlencoding::decode` replaces each `%` that two
/// hexadecimal digits follow, leaves every other byte as it is (`+` too), and fails where the
/// outcome is not UTF-8.
#[verifier::external_body]
pub(crate) fn url_decode(s: &str) -> (r: Option<String>)
    ensures
        text::opt_view(r) == url_decoded(s@),
{
    urlencoding::decode(s).ok().map(|t| t.into_owned())
}

proof fn percent_encode_ascii(b: Seq<u8>)
    ensures
        forall|i: int|
            0 <= i < percent_encode(b).len() ==> {
                let c = #[trigger] percent_encode(b)[i];
                unreserved(c) || c == 37
            },
    decreases b.len(),
{
    if b.len() > 0 {
        percent_encode_ascii(b.skip(1));
        let h = percent_byte(b[0]);
        let t = percent_encode(b.skip(1));
        assert forall|i: int| 0 <= i < percent_encode(b).len() implies {
            let c = #[trigger] percent_encode(b)[i];
            unreserved(c) || c == 37
        } by {
            if i < h.len() {
                assert(percent_encode(b)[i] == h[i]);
            } else {
                assert(percent_encode(b)[i] == t[i - h.len()]);
            }
        }
    }
}

proof fn percent_round_trip(b: Seq<u8>)
    ensures
        percent_decode(percent_encode(b)) == b,
    decreases b.len(),
{
    if b.len() > 0 {
        percent_round_trip(b.skip(1));
        let e = percent_encode(b);
        let h = percent_byte(b[0]);
        let t = percent_encode(b.skip(1));
        assert(e == h + t);
        assert(e.skip(h.len() as int) =~= t);
        assert(e[0] == h[0]);
        if !unreserved(b[0]) {
            assert(e[1] == h[1] && e[2] == h[2]);
        }
        assert(percent_decode(e) =~= seq![b[0]] + percent_decode(t));
        assert(seq![b[0]] + b.skip(1) =~= b);
    }
}

/// A percent-encoded text consists of unreserved characters and `%`: it holds none of the
/// characters that separate the parts of a URL or of a form.
pub proof fn url_encoded_is_plain(s: Seq<char>)
    ensures
        forall|i: int|
            0 <= i < url_encoded(s).len() ==> {
                let c = #[trigger] url_encoded(s)[i];
                (c as u32) < 128 && (unreserved(c as u8) || c == '%')
            },
        !url_encoded(s).contains('&'),
        !url_encoded(s).contains('='),
        !url_encoded(s).contains('?'),
        !url_encoded(s).contains('#'),
        !url_encoded(s).contains('"'),
        !url_encoded(s).contains('<'),
        !url_encoded(s).contains(';'),
        !url_encoded(s).contains('/'),
{
    percent_encode_ascii(encode_utf8(s));
    assert forall|i: int| 0 <= i < url_encoded(s).len() implies {
        let c = #[trigger] url_encoded(s)[i];
        (c as u32) < 128 && (unreserved(c as u8) || c == '%')
    } by {
        let b = percent_encode(encode_utf8(s))[i];
        assert(unreserved(b) || b == 37);
    }
}

/// Decoding what encoding wrote gives the text back.
pub proof fn url_round_trip(s: Seq<char>)
    ensures
        url_decoded(url_encoded(s)) == Some(s),
{
    let b = encode_utf8(s);
    let e = percent_encode(b);
    let t = url_encoded(s);
    url_encoded_is_plain(s);
    percent_encode_ascii(b);
    assert(is_ascii_chars(t));
    is_ascii_chars_encode_utf8(t);
    assert(encode_utf8(t) =~= e) by {
        assert forall|i: int| 0 <= i < e.len() implies encode_utf8(t)[i] == e[i] by {
            assert(t[i] == e[i] as char);
            assert(unreserved(e[i]) || e[i] == 37);
        }
    }
    percent_round_trip(b);
    encode_utf8_valid_utf8(s);
    encode_utf8_decode_utf8(s);
}

// ---------------------------------------------------------------------------------------------
// base64
// ---------------------------------------------------------------------------------------------

/// The digit of a number below 64, in the alphabet for URLs or in the common one.
pub open spec fn base64_digit(n: int, url: bool) -> char {
    if n < 26 {
        (65 + n) as char
    } else if n < 52 {
        (71 + n) as char
    } else if n < 62 {
        (n - 4) as char
    } else if n == 62 {
        if url {
            '-'
        } else {
            '+'
        }
    } else if url {
        '_'
    } else {
        '/'
    }
}

/// Bytes in base64: with the alphabet for URLs and no padding, or with the common alphabet, padded.
pub open spec fn base64(b: Seq<u8>, url: bool) -> Seq<char>
    decreases b.len(),
{
    if b.len() == 0 {
        Seq::<char>::empty()
    } else {
        let x = b[0] as int;
        if b.len() == 1 {
            let t = seq![base64_digit(x / 4, url), base64_digit(x % 4 * 16, url)];
            if url {
                t
            } else {
                t + seq!['=', '=']
            }
        } else {
            let y = b[1] as int;
            if b.len() == 2 {
                let t = seq![
                    base64_digit(x / 4, url),
                    base64_digit(x % 4 * 16 + y / 16, url),
                    base64_digit(y % 16 * 4, url),
                ];
                if url {
                    t
                } else {
                    t + seq!['=']
                }
            } else {
                let z = b[2] as int;
                seq![
                    base64_digit(x / 4, url),
                    base64_digit(x % 4 * 16 + y / 16, url),
                    base64_digit(y % 16 * 4 + z / 64, url),
                    base64_digit(z % 64, url),
                ] + base64(b.skip(3), url)
            }
        }
    }
}

/// base64 for URLs, without padding: what `URL_SAFE_NO_PAD` of the `base64` crate encodes.
#[verifier::external_body]
pub fn b64url(data: &[u8]) -> (r: String)
    ensures
        r@ == base64(data@, true),
{
    base64::engine::general_purpose::URL_SAFE_NO_PAD.encode(data)
}

/// The bytes of base64 for URLs. `URL_SAFE_NO_PAD` of the `base64` crate decodes exactly the texts
/// that it encodes: it refuses padding, other characters, and stray bits in the last digit.
#[verifier::external_body]
pub(crate) fn b64url_decode(s: &str) -> (r: Option<Vec<u8>>)
    ensures
        match r {
            Some(b) => base64(b@, true) == s@,
            None => forall|b: Seq<u8>| #[trigger] base64(b, true) != s@,
        },
{
    base64::engine::general_purpose::URL_SAFE_NO_PAD.decode(s).ok()
}

/// The bytes of common base64. `STANDARD` of the `base64` crate decodes exactly the texts that it
/// encodes: the padding must be there, and no stray bits in the last digit.
#[verifier::external_body]
pub(crate) fn b64_decode(s: &str) -> (r: Option<Vec<u8>>)
    ensures
        match r {
            Some(b) => base64(b@, false) == s@,
            None => forall|b: Seq<u8>| #[trigger] base64(b, false) != s@,
        },
{
    base64::engine::general_purpose::STANDARD.decode(s).ok()
}

/// The bytes that a base64 text stands for, if it is one.
pub open spec fn base64_bytes(s: Seq<char>, url: bool) -> Option<Seq<u8>> {
    if exists|b: Seq<u8>| #[trigger] base64(b, url) == s {
        Some(choose|b: Seq<u8>| #[trigger] base64(b, url) == s)
    } else {
        None
    }
}

proof fn base64_digit_injective(m: int, n: int, url: bool)
    requires
        0 <= m < 64,
        0 <= n < 64,
        base64_digit(m, url) == base64_digit(n, url),
    ensures
        m == n,
{
}

/// A letter, a digit, `-` or `_`.
pub open spec fn url_digit(c: char) -> bool {
    ('A' <= c && c <= 'Z') || ('a' <= c && c <= 'z') || ('0' <= c && c <= '9') || c == '-' || c == '_'
}

proof fn base64_digit_range(n: int, url: bool)
    requires
        0 <= n < 64,
    ensures
        ({
            let c = base64_digit(n, url);
            &&& c != '='
            &&& url ==> url_digit(c)
        }),
{
}

/// Distinct byte strings have distinct base64 forms.
pub proof fn base64_injective(a: Seq<u8>, b: Seq<u8>, url: bool)
    requires
        base64(a, url) == base64(b, url),
    ensures
        a == b,
    decreases a.len(),
{
    let s = base64(a, url);
    let t = base64(b, url);
    if a.len() == 0 {
        assert(s.len() == 0);
        if b.len() > 0 {
            assert(t.len() > 0);
        }
        assert(a =~= b);
    } else if b.len() == 0 {
        assert(t.len() == 0);
        assert(s.len() > 0);
    } else {
        base64_length(a, url);
        base64_length(b, url);
        let x = a[0] as int;
        let u = b[0] as int;
        base64_head(a, url);
        base64_head(b, url);
        base64_digit_injective(x / 4, u / 4, url);
        if a.len() >= 3 && b.len() >= 3 {
            base64_digit_injective(x % 4 * 16 + a[1] as int / 16, u % 4 * 16 + b[1] as int / 16, url);
            base64_digit_injective(
                a[1] as int % 16 * 4 + a[2] as int / 64,
                b[1] as int % 16 * 4 + b[2] as int / 64,
                url,
            );
            base64_digit_injective(a[2] as int % 64, b[2] as int % 64, url);
            assert(s.skip(4) =~= base64(a.skip(3), url));
            assert(t.skip(4) =~= base64(b.skip(3), url));
            base64_injective(a.skip(3), b.skip(3), url);
            assert(a =~= a.take(3) + a.skip(3));
            assert(b =~= b.take(3) + b.skip(3));
            assert(a.take(3) =~= b.take(3));
        } else if a.len() == 2 && b.len() == 2 {
            base64_digit_injective(x % 4 * 16 + a[1] as int / 16, u % 4 * 16 + b[1] as int / 16, url);
            base64_digit_injective(a[1] as int % 16 * 4, b[1] as int % 16 * 4, url);
            assert(a =~= b);
        } else if a.len() == 1 && b.len() == 1 {
            base64_digit_injective(x % 4 * 16, u % 4 * 16, url);
            assert(a =~= b);
        } else {
            base64_tail(a, url);
            base64_tail(b, url);
            assert(false);
        }
    }
}

/// The digits that the first bytes give.
proof fn base64_head(a: Seq<u8>, url: bool)
    requires
        a.len() > 0,
    ensures
        ({
            let s = base64(a, url);
            let x = a[0] as int;
            &&& s[0] == base64_digit(x / 4, url)
            &&& a.len() == 1 ==> s[1] == base64_digit(x % 4 * 16, url)
            &&& a.len() >= 2 ==> s[1] == base64_digit(x % 4 * 16 + a[1] as int / 16, url)
            &&& a.len() == 2 ==> s[2] == base64_digit(a[1] as int % 16 * 4, url)
            &&& a.len() >= 3 ==> s[2] == base64_digit(a[1] as int % 16 * 4 + a[2] as int / 64, url)
            &&& a.len() >= 3 ==> s[3] == base64_digit(a[2] as int % 64, url)
        }),
{
}

/// How long the base64 form is.
pub proof fn base64_length(a: Seq<u8>, url: bool)
    ensures
        url ==> base64(a, url).len() == (4 * a.len() + 2) / 3,
        !url ==> base64(a, url).len() == (a.len() + 2) / 3 * 4,
    decreases a.len(),
{
    if a.len() >= 3 {
        base64_length(a.skip(3), url);
    }
}

/// Where padding stands in the last group of the common form.
proof fn base64_tail(a: Seq<u8>, url: bool)
    requires
        !url,
        a.len() > 0,
    ensures
        a.len() == 1 ==> base64(a, url)[2] == '=' && base64(a, url)[3] == '=',
        a.len() == 2 ==> base64(a, url)[2] != '=' && base64(a, url)[3] == '=',
        a.len() >= 3 ==> base64(a, url)[2] != '=' && base64(a, url)[3] != '=',
{
    if a.len() == 2 {
        base64_digit_range(a[1] as int % 16 * 4, url);
    }
    if a.len() >= 3 {
        base64_digit_range(a[1] as int % 16 * 4 + a[2] as int / 64, url);
        base64_digit_range(a[2] as int % 64, url);
    }
}

/// Decoding what encoding wrote gives the bytes back.
pub proof fn base64_round_trip(b: Seq<u8>, url: bool)
    ensures
        base64_bytes(base64(b, url), url) == Some(b),
{
    let s = base64(b, url);
    let c = choose|c: Seq<u8>| #[trigger] base64(c, url) == s;
    base64_injective(b, c, url);
}

/// The form for URLs consists of letters, digits, `-` and `_`.
pub proof fn b64url_is_plain(b: Seq<u8>)
    ensures
        forall|i: int|
            0 <= i < base64(b, true).len() ==> {
                url_digit(#[trigger] base64(b, true)[i])
            },
    decreases b.len(),
{
    if b.len() > 0 {
        let s = base64(b, true);
        let x = b[0] as int;
        base64_digit_range(x / 4, true);
        base64_digit_range(x % 4 * 16, true);
        if b.len() >= 2 {
            let y = b[1] as int;
            base64_digit_range(x % 4 * 16 + y / 16, true);
            base64_digit_range(y % 16 * 4, true);
            if b.len() >= 3 {
                let z = b[2] as int;
                base64_digit_range(y % 16 * 4 + z / 64, true);
                base64_digit_range(z % 64, true);
                b64url_is_plain(b.skip(3));
                let t = base64(b.skip(3), true);
                assert forall|i: int| 0 <= i < s.len() implies {
                    url_digit(#[trigger] s[i])
                } by {
                    if i >= 4 {
                        assert(s[i] == t[i - 4]);
                    }
                }
            }
        }
    }
}

/// The length of the form for URLs: four digits for every three bytes, two or three for what is left.
pub proof fn b64url_len(b: Seq<u8>)
    ensures
        base64(b, true).len() == (4 * b.len() + 2) / 3,
    decreases b.len(),
{
    if b.len() >= 3 {
        b64url_len(b.skip(3));
    }
}

/// The text of bytes that are UTF-8.
pub open spec fn utf8_text(b: Seq<u8>) -> Option<Seq<char>> {
    if valid_utf8(b) {
        Some(decode_utf8(b))
    } else {
        None
    }
}

/// The text of bytes. `String::from_utf8` fails exactly on bytes that are not UTF-8.
#[verifier::external_body]
pub(crate) fn string_of_utf8(b: Vec<u8>) -> (r: Option<String>)
    ensures
        text::opt_view(r) == utf8_text(b@),
{
    String::from_utf8(b).ok()
}

} // verus!
