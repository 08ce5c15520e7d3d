use protoc_gen_ts::number::is_number;
use protoc_gen_ts::text::{
    char_is_space, joined, find_in, matches_at, str_contains, str_eq, str_replace, trim_bounds,
};

#[test]
fn str_eq_compares_characters() {
    assert!(str_eq("", ""));
    assert!(str_eq("proto3", "proto3"));
    assert!(!str_eq("proto3", "proto2"));
    assert!(!str_eq("proto", "proto3"));
    assert!(str_eq("gr\u{fc}n", "gr\u{fc}n"));
}

#[test]
fn concat_appends() {
    assert_eq!(joined("read", "Packed"), "readPacked");
    assert_eq!(joined("", "x"), "x");
    assert_eq!(joined("x", ""), "x");
}

#[test]
fn white_space_is_the_unicode_property() {
    let others =
        ['\u{0}', '\u{8}', '\u{e}', '\u{1f}', 'a', '\u{84}', '\u{200b}', '\u{2060}', '\u{feff}'];
    for c in others {
        assert!(!char_is_space(c));
    }
    for c in 0u32..0x4000 {
        let c = char::from_u32(c).unwrap();
        assert_eq!(char_is_space(c), c.is_whitespace());
    }
}

#[test]
fn find_in_stops_at_the_first_occurrence() {
    assert_eq!(find_in("a,b,c", 0, 5, ','), 1);
    assert_eq!(find_in("a,b,c", 2, 5, ','), 3);
    assert_eq!(find_in("a,b,c", 4, 5, ','), 5);
    assert_eq!(find_in("a,b,c", 0, 1, ','), 1);
    assert_eq!(find_in("", 0, 0, ','), 0);
}

#[test]
fn trim_bounds_agree_with_trim() {
    for s in ["", " ", "  a  ", "a", " a b ", "\t\n x=1 \u{3000}", "\u{a0}"] {
        let n = s.chars().count();
        let (a, b) = trim_bounds(s, 0, n);
        let got: String = s.chars().skip(a).take(b - a).collect();
        assert_eq!(got, s.trim());
    }
    let (a, b) = trim_bounds("ab  cd", 2, 4);
    assert_eq!(a, b);
    assert_eq!(trim_bounds("a  b  c", 1, 6), (3, 4));
}

#[test]
fn matches_at_compares_in_place() {
    assert!(matches_at("a.proto", 1, ".proto"));
    assert!(!matches_at("a.proto", 0, ".proto"));
    assert!(matches_at("abc", 3, ""));
}

#[test]
fn str_contains_agrees_with_std() {
    let cases = [
        ("google/protobuf/descriptor.proto", "descriptor.proto"),
        ("a.proto", "descriptor.proto"),
        ("", ""),
        ("abc", ""),
        ("", "a"),
        ("aab", "ab"),
        ("abab", "bab"),
        ("abc", "abcd"),
        ("descriptor.prot", "descriptor.proto"),
    ];
    for (s, p) in cases {
        assert_eq!(str_contains(s, p), s.contains(p));
    }
}

#[test]
fn str_replace_agrees_with_std() {
    let cases = [
        ("a.proto", ".proto", ".ets"),
        ("a.proto.proto", ".proto", ".ets"),
        ("dir/a.protob.proto", ".proto", ""),
        ("aaa", "aa", "b"),
        ("aaaa", "aa", "b"),
        ("abc", "x", "y"),
        ("", "x", "y"),
        ("x", "x", ""),
        ("ab", "abc", "y"),
        ("\u{fc}.proto\u{fc}", ".proto", "\u{e4}"),
    ];
    for (s, p, w) in cases {
        assert_eq!(str_replace(s, p, w), s.replace(p, w));
    }
    assert_eq!(str_replace("a.proto", ".proto", ".ets"), "a.ets");
    // an empty pattern occurs nowhere
    assert_eq!(str_replace("abc", "", "-"), "abc");
}

#[test]
fn numbers_are_what_parses_as_a_float() {
    let texts = [
        "", "0", "5", "-1", "+1", "1.5", "-1.5", ".5", "5.", ".", "+", "-", "+.", "1e5", "1E5",
        "1e+5", "1e-5", "1e", "1e+", "e5", ".e5", "1.e5", ".5e-3", "1.2.3", "1e5e5", "1e5.5",
        "inf", "-inf", "+inf", "Inf", "INF", "infinity", "-Infinity", "INFINITY", "infinit",
        "infinityy", "nan", "NaN", "-nan", "+NAN", "na", "nane", " 1", "1 ", "1_000", "0x10",
        "1f", "--1", "+-1", "1e--5", "৫", "1٫5", "00012", "-0", "-0.0e-0", "1e400", "１",
        "i", "infi", "I\u{307}NF", "\u{212a}", "3.4028235e38", "-3.4028235E+38", "2147483647",
        "18446744073709551615", "e", "E", ".e", "1.5e", "1.5e+", "1.5e+1.0", "n", "an",
    ];
    for t in texts {
        assert_eq!(is_number(t), t.parse::<f64>().is_ok(), "on {:?}", t);
    }
    assert!(is_number("5"));
    assert!(is_number("-1.5e+10"));
    assert!(!is_number("five"));
    assert!(!is_number(""));
}
