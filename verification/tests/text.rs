//! Splitting, trimming and building of texts, and base64 for URLs.

use argus::encoding::b64url;
use argus::pages::html_escape;
use argus::text::{contains_char, ct_eq, cut, has_piece, join_list, len_in_bytes, split_on, starts_with, strip_prefix, to_decimal, trim, trim_end_matches};


fn strings(v: &[&str]) -> Vec<String> {
    v.iter().map(|s| s.to_string()).collect()
}

#[test]
fn comparison_is_exact() {
    assert!(ct_eq(b"", b""));
    assert!(ct_eq(b"abc", b"abc"));
    assert!(!ct_eq(b"abc", b"abd"));
    assert!(!ct_eq(b"abc", b"ab"));
    assert!(!ct_eq(b"\x01\x02", b"\x02\x01"));
}

#[test]
fn splitting_gives_every_piece() {
    assert_eq!(split_on("a b  c", ' '), strings(&["a", "b", "", "c"]));
    assert_eq!(split_on("", ' '), strings(&[""]));
    assert_eq!(split_on("ä?ö?", '?'), strings(&["ä", "ö", ""]));
    assert_eq!(cut("k=v=w", '='), Some(("k".to_string(), "v=w".to_string())));
    assert_eq!(cut("kv", '='), None);
    assert!(has_piece("openid email", ' ', "email"));
    assert!(!has_piece("openid email", ' ', "mail"));
}

#[test]
fn joining_is_undone_by_splitting() {
    let v = strings(&["a", "", "c"]);
    let joined = join_list(&v, " ");
    assert_eq!(joined, "a  c");
    assert_eq!(split_on(&joined, ' '), v);
    assert_eq!(join_list(&Vec::new(), " "), "");
}

#[test]
fn trimming_drops_white_space_alone() {
    assert_eq!(trim("  a b\t\n"), "a b");
    assert_eq!(trim("\u{a0}\u{3000}x\u{2028}"), "x");
    assert_eq!(trim("\u{200b}x"), "\u{200b}x");
    assert_eq!(trim(" \r\n "), "");
    assert_eq!(trim_end_matches("http://h//", '/'), "http://h");
    assert_eq!(trim_end_matches("///", '/'), "");
}

#[test]
fn prefixes_and_characters_are_found() {
    assert!(starts_with("agt_1", "agt_"));
    assert!(!starts_with("agt", "agt_"));
    assert_eq!(strip_prefix("Basic abc", "Basic "), Some("abc".to_string()));
    assert_eq!(strip_prefix("basic abc", "Basic "), None);
    assert!(contains_char("a@b", '@'));
    assert!(!contains_char("", '@'));
}

#[test]
fn lengths_are_counted_in_bytes() {
    assert_eq!(len_in_bytes(""), 0);
    assert_eq!(len_in_bytes("aé€"), 6);
}

#[test]
fn numbers_are_written_in_decimal() {
    assert_eq!(to_decimal(0), "0");
    assert_eq!(to_decimal(3600), "3600");
    assert_eq!(to_decimal(u64::MAX), "18446744073709551615");
}

#[test]
fn base64_for_urls_has_no_padding() {
    assert_eq!(b64url(b""), "");
    assert_eq!(b64url(b"f"), "Zg");
    assert_eq!(b64url(b"fo"), "Zm8");
    assert_eq!(b64url(b"foobar"), "Zm9vYmFy");
    assert_eq!(b64url(&[0xfb, 0xff, 0xbf]), "-_-_");
}

#[test]
fn escaping_keeps_texts_apart() {
    let (a, b) = ("x & <y>", "\"&amp;\"");
    assert_eq!(html_escape(&format!("{a}{b}")), html_escape(a) + &html_escape(b));
    assert_ne!(html_escape("&"), html_escape("&amp;"));
    assert_eq!(html_escape("&amp;"), "&amp;amp;");
    assert_eq!(html_escape("plain; 'text'"), "plain; 'text'");
}
