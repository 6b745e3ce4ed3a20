use next_plugin_gog::service::urlencoding_embed_redirect;
use next_plugin_gog::text::{i64_text, parse_i64, replace_all, u64_text};
use next_plugin_gog::urlencode::url_encode;

#[test]
fn numbers_in_decimal() {
    assert_eq!(i64_text(0), "0");
    assert_eq!(i64_text(1234567890), "1234567890");
    assert_eq!(i64_text(-7), "-7");
    assert_eq!(i64_text(i64::MIN), "-9223372036854775808");
    assert_eq!(i64_text(i64::MAX), "9223372036854775807");
    assert_eq!(u64_text(u64::MAX), "18446744073709551615");
}

#[test]
fn numbers_are_read_back() {
    for n in [0, 1, -1, 9, 10, -10, 99, 100, i64::MIN, i64::MAX, i64::MAX - 1] {
        assert_eq!(parse_i64(&i64_text(n)), Some(n));
        assert_eq!(i64_text(n).parse::<i64>(), Ok(n));
    }
}

#[test]
fn numbers_are_read_as_the_standard_library_does() {
    for s in [
        "", "+", "-", "+5", "-5", "007", "--5", "+-5", "5 ", " 5", "5a", "a5", "0x10", "\u{664}",
        "9223372036854775807", "9223372036854775808", "-9223372036854775808",
        "-9223372036854775809", "99999999999999999999999", "00000000000000000000000000012",
    ] {
        assert_eq!(parse_i64(s), s.parse::<i64>().ok(), "{s:?}");
    }
}

#[test]
fn occurrences_are_replaced_from_the_left() {
    for (s, pat, to) in [
        ("aXbXc", "X", "--"),
        ("aaa", "aa", "b"),
        ("aaaa", "aa", "a"),
        ("", "x", "y"),
        ("x", "xx", "y"),
        ("{{a}}", "{a}", "b"),
        ("{a}{a}", "{a}", "{a}"),
        ("h\u{e9}llo", "\u{e9}", "e"),
        ("abc", "c", ""),
    ] {
        assert_eq!(replace_all(s, pat, to), s.replace(pat, to), "{s:?}");
    }
}

#[test]
fn redirect_is_encoded_for_the_query() {
    assert_eq!(
        urlencoding_embed_redirect(),
        "https%3A%2F%2Fembed.gog.com%2Fon_login_success%3Forigin%3Dclient"
    );
}

#[test]
fn everything_but_unreserved_characters_is_encoded() {
    assert_eq!(url_encode("AZaz09-_.~"), "AZaz09-_.~");
    assert_eq!(url_encode(" &+%\n"), "%20%26%2B%25%0A");
    assert_eq!(url_encode("\u{e9}\u{100}\u{1f600}"), "%E9%100%1F600");
    assert_eq!(url_encode(""), "");
}
