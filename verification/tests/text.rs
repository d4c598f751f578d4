use liveshark::address::{format_endpoint, IpAddress};
use liveshark::analysis::notes::format_violation_example;
use liveshark::order::sort_ranked;
use liveshark::report::join_with_commas;
use liveshark::text::{
    chars_of, hex_text, lower_text, push_decimal, push_hex, push_hex_fixed, starts_with,
    text_eq, text_le_exec, trimmed, trimmed_name,
};
use liveshark::time_text::ts_to_rfc3339;

#[test]
fn numbers_are_written_in_decimal_and_hexadecimal() {
    let mut s = String::from("n=");
    push_decimal(&mut s, 0);
    s.push(',');
    push_decimal(&mut s, 65535);
    s.push(',');
    push_decimal(&mut s, u64::MAX);
    assert_eq!(s, "n=0,65535,18446744073709551615");
    let mut s = String::new();
    push_hex(&mut s, 0);
    s.push(',');
    push_hex(&mut s, 0xdb8);
    s.push(',');
    push_hex_fixed(&mut s, 0x5000, 4);
    s.push(',');
    push_hex_fixed(&mut s, 4, 8);
    s.push(',');
    push_hex_fixed(&mut s, 0x1ab, 2);
    assert_eq!(s, "0,db8,5000,00000004,ab");
    assert_eq!(hex_text(&[0x00, 0x0f, 0xa0, 0xff]), "000fa0ff");
    assert_eq!(hex_text(&[]), "");
}

#[test]
fn text_is_trimmed_as_unicode_white_space() {
    assert_eq!(trimmed("  a b \t\n"), "a b");
    assert_eq!(trimmed("\u{a0}\u{3000}x\u{2009}"), "x");
    assert_eq!(trimmed("   "), "");
    assert_eq!(trimmed(""), "");
    assert_eq!(trimmed("\u{200b}x"), "\u{200b}x");
    assert_eq!(trimmed_name("desk \0\0\0"), "desk");
    assert_eq!(trimmed_name(" \0 x \0"), "\0 x");
    assert_eq!(trimmed_name("\0\0"), "");
    for s in ["  a b \t\n", "\u{85}x\u{1680}", "x\u{180e}", "\u{2028}\u{2029}y\u{202f}\u{205f}", "\u{1f}z\u{1c}"] {
        assert_eq!(trimmed(s), s.trim());
    }
}

#[test]
fn ascii_letters_are_lower_cased() {
    assert_eq!(lower_text("ArtNet-\u{c9}Z@["), "artnet-\u{c9}z@[");
    assert_eq!(lower_text("sACN"), "SACN".to_ascii_lowercase());
}

#[test]
fn texts_compare_by_code_point() {
    assert!(text_le_exec("", ""));
    assert!(text_le_exec("", "a"));
    assert!(!text_le_exec("a", ""));
    assert!(text_le_exec("abc", "abd"));
    assert!(text_le_exec("ab", "abc"));
    assert!(!text_le_exec("b", "abc"));
    assert!(text_le_exec("Z", "a"));
    assert!(text_le_exec("z", "\u{e9}"));
    assert!(text_le_exec("\u{ffff}", "\u{10000}"));
    assert!(text_eq("abc", "abc"));
    assert!(!text_eq("abc", "abd"));
    assert!(!text_eq("abc", "ab"));
    assert!(starts_with("source x", "source "));
    assert!(!starts_with("sourc", "source "));
    assert!(starts_with("x", ""));
    assert_eq!(chars_of("a\u{e9}"), vec!['a', '\u{e9}']);
    let words = ["b", "", "a\u{e9}", "ab", "a", "B", "\u{10000}", "\u{ffff}", "ab"];
    for x in words {
        for y in words {
            assert_eq!(text_le_exec(x, y), x <= y);
        }
    }
}

#[test]
fn sorting_is_stable_and_by_code_point() {
    let words: Vec<String> =
        ["pear", "apple", "fig", "Apple", "apple", ""].iter().map(|s| s.to_string()).collect();
    let mut expected = words.clone();
    expected.sort();
    assert_eq!(sort_ranked(words), expected);
    assert_eq!(sort_ranked(Vec::<String>::new()), Vec::<String>::new());
    assert_eq!(join_with_commas(&vec!["a".to_string(), "b".to_string(), "c".to_string()]), "a,b,c");
    assert_eq!(join_with_commas(&vec!["a".to_string()]), "a");
    assert_eq!(join_with_commas(&Vec::new()), "");
}

#[test]
fn addresses_are_written_as_text() {
    assert_eq!(IpAddress::V4([0, 10, 200, 255]).to_text(), "0.10.200.255");
    let v6 = |groups: [u16; 8]| {
        let mut bytes = [0u8; 16];
        for (i, g) in groups.iter().enumerate() {
            bytes[2 * i..2 * i + 2].copy_from_slice(&g.to_be_bytes());
        }
        IpAddress::V6(bytes)
    };
    assert_eq!(v6([0; 8]).to_text(), "::");
    assert_eq!(v6([0, 0, 0, 0, 0, 0, 0, 1]).to_text(), "::1");
    assert_eq!(v6([0x2001, 0xdb8, 0, 0, 0, 0, 0, 1]).to_text(), "2001:db8::1");
    assert_eq!(v6([0xfe80, 0, 0, 0, 0, 0, 0, 0]).to_text(), "fe80::");
    assert_eq!(v6([1, 0, 0, 2, 0, 0, 0, 3]).to_text(), "1:0:0:2::3");
    assert_eq!(v6([1, 0, 0, 2, 3, 0, 0, 4]).to_text(), "1::2:3:0:0:4");
    assert_eq!(v6([1, 0, 2, 3, 4, 5, 6, 7]).to_text(), "1:0:2:3:4:5:6:7");
    assert_eq!(v6([1, 2, 3, 4, 5, 6, 7, 8]).to_text(), "1:2:3:4:5:6:7:8");
    assert_eq!(v6([0, 0, 0, 0, 0, 0xffff, 0xc0a8, 0x0102]).to_text(), "::ffff:192.168.1.2");
    assert_eq!(v6([0, 0, 0, 0, 0, 0, 0xc0a8, 0x0102]).to_text(), "::c0a8:102");
    assert_eq!(v6([0, 1, 0, 0, 0, 0, 0, 0]).to_text(), "0:1::");
    assert_eq!(format_endpoint(&IpAddress::V4([1, 2, 3, 4]), 80), "1.2.3.4:80");
    assert_eq!(format_endpoint(&v6([0, 0, 0, 0, 0, 0, 0, 1]), 5568), "[::1]:5568");
    assert!(IpAddress::V4([1, 2, 3, 4]).same(&IpAddress::V4([1, 2, 3, 4])));
    assert!(!IpAddress::V4([1, 2, 3, 4]).same(&IpAddress::V4([1, 2, 3, 5])));
    assert!(!IpAddress::V4([0, 0, 0, 0]).same(&v6([0; 8])));
}

#[test]
fn capture_times_are_written_as_rfc_3339() {
    assert_eq!(ts_to_rfc3339(None), None);
    assert_eq!(ts_to_rfc3339(Some(0)).as_deref(), Some("1970-01-01T00:00:00Z"));
    assert_eq!(ts_to_rfc3339(Some(1_500_000)).as_deref(), Some("1970-01-01T00:00:01.5Z"));
    assert_eq!(
        ts_to_rfc3339(Some(1_546_300_800_000_001)).as_deref(),
        Some("2019-01-01T00:00:00.000001Z")
    );
    assert_eq!(
        ts_to_rfc3339(Some(253_402_300_799_999_999)).as_deref(),
        Some("9999-12-31T23:59:59.999999Z")
    );
    assert_eq!(ts_to_rfc3339(Some(253_402_300_800_000_000)), None);
}

#[test]
fn examples_name_source_and_time() {
    let ip = IpAddress::V4([10, 0, 0, 1]);
    assert_eq!(
        format_violation_example(" value=1 ".to_string(), Some((&ip, 6454)), Some(2_000_000)),
        "source 10.0.0.1:6454 @ 1970-01-01T00:00:02Z; value=1"
    );
    assert_eq!(
        format_violation_example(String::new(), Some((&ip, 6454)), None),
        "source 10.0.0.1:6454 @ unknown"
    );
    assert_eq!(format_violation_example(" x ".to_string(), None, Some(1)), "x");
}
