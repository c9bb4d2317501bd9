use local_swarm::names::{node_name, parse_name};

#[test]
fn plain_numerals_are_numbered_names() {
    assert_eq!(parse_name("0"), Some(0));
    assert_eq!(parse_name("7"), Some(7));
    assert_eq!(parse_name("12"), Some(12));
    assert_eq!(parse_name("1000"), Some(1000));
}

#[test]
fn leading_zeros_count_for_nothing() {
    assert_eq!(parse_name("007"), Some(7));
    assert_eq!(parse_name("0000000000000000000000012"), Some(12));
    assert_eq!(parse_name("-000"), Some(0));
}

#[test]
fn signs_are_read() {
    assert_eq!(parse_name("+5"), Some(5));
    assert_eq!(parse_name("-7"), Some(-7));
    assert_eq!(parse_name("-0"), Some(0));
}

#[test]
fn names_without_digits_are_not_numbered() {
    assert_eq!(parse_name(""), None);
    assert_eq!(parse_name("-"), None);
    assert_eq!(parse_name("+"), None);
    assert_eq!(parse_name("+-1"), None);
    assert_eq!(parse_name("--1"), None);
}

#[test]
fn names_with_other_characters_are_not_numbered() {
    assert_eq!(parse_name("1a"), None);
    assert_eq!(parse_name("a1"), None);
    assert_eq!(parse_name(" 1"), None);
    assert_eq!(parse_name("1 "), None);
    assert_eq!(parse_name("1_000"), None);
    assert_eq!(parse_name("1.0"), None);
    assert_eq!(parse_name("validator"), None);
    assert_eq!(parse_name("\u{0661}"), None);
    assert_eq!(parse_name("1\u{00e9}"), None);
}

#[test]
fn numbers_are_bounded_by_32_bits() {
    assert_eq!(parse_name("2147483647"), Some(i32::MAX));
    assert_eq!(parse_name("2147483648"), None);
    assert_eq!(parse_name("-2147483648"), Some(i32::MIN));
    assert_eq!(parse_name("-2147483649"), None);
    assert_eq!(parse_name("99999999999999999999999999999999"), None);
    assert_eq!(parse_name("-99999999999999999999999999999999"), None);
    assert_eq!(parse_name("+2147483647"), Some(i32::MAX));
}

#[test]
fn parse_name_agrees_with_the_standard_parser() {
    let samples = [
        "", "0", "1", "-1", "+1", "10", "0010", "2147483647", "2147483648", "-2147483648",
        "-2147483649", "12a", "a12", "+", "-", " 3", "3 ", "4294967296", "１２",
    ];
    for s in samples {
        assert_eq!(parse_name(s), s.parse::<i32>().ok(), "for {:?}", s);
    }
}

#[test]
fn names_of_numbers_are_their_shortest_numerals() {
    assert_eq!(node_name(0), "0");
    assert_eq!(node_name(7), "7");
    assert_eq!(node_name(10), "10");
    assert_eq!(node_name(12345), "12345");
    assert_eq!(node_name(1000000), "1000000");
    assert_eq!(node_name(u64::MAX), "18446744073709551615");
}

#[test]
fn node_name_agrees_with_the_standard_rendering() {
    for n in [0u64, 1, 9, 10, 11, 99, 100, 101, 4096, 999_999, 1 << 40, u64::MAX - 1] {
        assert_eq!(node_name(n), n.to_string());
    }
}

#[test]
fn naming_and_reading_give_the_number_back() {
    for n in [0u64, 1, 9, 10, 42, 1000, 2147483647] {
        assert_eq!(parse_name(&node_name(n)), Some(n as i32));
    }
    assert_eq!(parse_name(&node_name(2147483648)), None);
}

#[test]
fn different_numbers_have_different_names() {
    let names: Vec<String> = (0..200u64).map(node_name).collect();
    for i in 0..names.len() {
        for j in (i + 1)..names.len() {
            assert_ne!(names[i], names[j]);
        }
    }
}
