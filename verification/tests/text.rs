use kiosk_naplata::keyed::{sort_keyed, Keyed};
use kiosk_naplata::order::{distinct_in_order, text_before};
use kiosk_naplata::text::{
    bytes_of, decimal_i64, decimal_u64, has_char, hex_byte, hex_word, join, parse_i64, same_text,
    split, trim,
};

#[test]
fn decimal_numbers() {
    assert_eq!(decimal_u64(0), "0");
    assert_eq!(decimal_u64(u64::MAX), "18446744073709551615");
    assert_eq!(decimal_i64(-7), "-7");
    assert_eq!(decimal_i64(i64::MIN), "-9223372036854775808");
}

#[test]
fn decimal_numbers_read_back() {
    for n in [0, 1, -1, 400, i64::MAX, i64::MIN] {
        assert_eq!(parse_i64(&decimal_i64(n)), Some(n));
    }
}

#[test]
fn numbers_parse_like_std() {
    for s in [
        "", "+", "-", "+5", "-5", "007", "1_000", " 1", "1 ", "9223372036854775807",
        "9223372036854775808", "-9223372036854775808", "-9223372036854775809", "٣", "--1", "+-1",
        "0", "-0",
    ] {
        assert_eq!(parse_i64(s), s.parse::<i64>().ok(), "{:?}", s);
    }
}

#[test]
fn hexadecimal_numbers() {
    assert_eq!(hex_byte(0x0a, true), "0A");
    assert_eq!(hex_byte(0xff, false), "ff");
    assert_eq!(hex_word(0x1504, false), "1504");
    assert_eq!(hex_word(0x00ab, true), "00AB");
}

#[test]
fn fields_split_and_join_back() {
    for s in ["", "|", "a|b", "|a||", "MMM|v1|x", "bez separatora"] {
        let expected: Vec<String> = s.split('|').map(|f| f.to_string()).collect();
        let fields = split(s, '|');
        assert_eq!(fields, expected);
        assert_eq!(join(&fields, "|"), s);
    }
    assert_eq!(join(&Vec::new(), ", "), "");
    assert_eq!(join(&vec!["a".to_string(), "b".to_string()], ", "), "a, b");
}

#[test]
fn trimming_is_like_std_and_stable() {
    for s in ["", "   ", " a ", "\u{a0}x\u{2003}", "\u{3000}č\t\n", "a b", "\u{200b}x"] {
        assert_eq!(trim(s), s.trim());
        assert_eq!(trim(&trim(s)), trim(s));
    }
}

#[test]
fn texts_compare() {
    assert!(same_text("č", "č"));
    assert!(!same_text("a", "ab"));
    assert!(has_char("a|b", '|'));
    assert!(!has_char("ab", '|'));
    assert_eq!(bytes_of("ž1"), "ž1".as_bytes().to_vec());
}

#[test]
fn texts_are_ordered_by_characters() {
    let words = ["", "a", "ab", "b", "COM10", "COM3", "ž", "\u{10000}"];
    for a in words {
        for b in words {
            assert_eq!(text_before(a, b), a < b, "{} {}", a, b);
        }
    }
}

#[test]
fn distinct_texts_in_order() {
    let names: Vec<String> =
        ["COM3", "COM10", "COM3", "A", "b"].iter().map(|s| s.to_string()).collect();
    assert_eq!(distinct_in_order(&names), vec!["A", "COM10", "COM3", "b"]);
    assert!(distinct_in_order(&Vec::new()).is_empty());
}

#[test]
fn keyed_rows_are_ordered_and_stable() {
    let rows: Vec<Keyed<&str>> = vec![
        Keyed { first: 2, second: 0, item: "d" },
        Keyed { first: 1, second: 5, item: "b" },
        Keyed { first: 1, second: 4, item: "a" },
        Keyed { first: 2, second: 0, item: "e" },
        Keyed { first: 1, second: 5, item: "c" },
    ];
    let sorted: Vec<&str> = sort_keyed(rows).into_iter().map(|k| k.item).collect();
    assert_eq!(sorted, vec!["a", "b", "c", "d", "e"]);
}
