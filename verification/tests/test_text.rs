use pomorks::text::{chars_of, compare_texts, push_decimal, read_count, split_fields, TextOrder};

fn strings(parts: &[&str]) -> Vec<String> {
    parts.iter().map(|p| p.to_string()).collect()
}

#[test]
fn chars_of_gives_the_characters() {
    assert_eq!(chars_of("abc"), vec!['a', 'b', 'c']);
    assert_eq!(chars_of(""), Vec::<char>::new());
    assert_eq!(chars_of("a\u{e9}\u{25A0}"), vec!['a', '\u{e9}', '\u{25A0}']);
}

#[test]
fn split_fields_cuts_at_every_space() {
    assert_eq!(split_fields("title tag project 3"), strings(&["title", "tag", "project", "3"]));
    assert_eq!(split_fields("abc"), strings(&["abc"]));
    assert_eq!(split_fields(""), strings(&[""]));
    assert_eq!(split_fields(" "), strings(&["", ""]));
    assert_eq!(split_fields("a  b"), strings(&["a", "", "b"]));
    assert_eq!(split_fields(" a b "), strings(&["", "a", "b", ""]));
    assert_eq!(split_fields("a\tb c"), strings(&["a\tb", "c"]));
}

#[test]
fn split_fields_agrees_with_the_standard_split() {
    for text in ["", " ", "a", "a b", "a  b   c", "  lead", "trail  ", "\u{e9}t\u{e9} d'\u{e9}t\u{e9}"] {
        let expected: Vec<String> = text.split(' ').map(|p| p.to_string()).collect();
        assert_eq!(split_fields(text), expected);
    }
}

#[test]
fn read_count_reads_digits() {
    assert_eq!(read_count("0"), Some(0));
    assert_eq!(read_count("3"), Some(3));
    assert_eq!(read_count("12"), Some(12));
    assert_eq!(read_count("007"), Some(7));
    assert_eq!(read_count("+42"), Some(42));
    assert_eq!(read_count("4096"), Some(4096));
}

#[test]
fn read_count_refuses_what_is_no_count() {
    assert_eq!(read_count(""), None);
    assert_eq!(read_count("+"), None);
    assert_eq!(read_count("-"), None);
    assert_eq!(read_count("-1"), None);
    assert_eq!(read_count("++1"), None);
    assert_eq!(read_count("1+"), None);
    assert_eq!(read_count("1.5"), None);
    assert_eq!(read_count(" 1"), None);
    assert_eq!(read_count("1 "), None);
    assert_eq!(read_count("x"), None);
    assert_eq!(read_count("12a"), None);
    assert_eq!(read_count("\u{0663}"), None);
}

#[test]
fn read_count_stops_at_the_largest_count() {
    let largest = usize::MAX.to_string();
    assert_eq!(read_count(&largest), Some(usize::MAX));
    let mut too_large = largest.clone();
    too_large.push('0');
    assert_eq!(read_count(&too_large), None);
    let one_more = (usize::MAX as u128 + 1).to_string();
    assert_eq!(read_count(&one_more), None);
    let zeros = format!("000000000000000000000000000000{}", usize::MAX);
    assert_eq!(read_count(&zeros), Some(usize::MAX));
}

#[test]
fn read_count_agrees_with_the_standard_parse() {
    for text in ["", "0", "+0", "-0", "17", "+17", "1_000", "0x10", "99999999999999999999999999"] {
        assert_eq!(read_count(text), text.parse::<usize>().ok());
    }
}

#[test]
fn push_decimal_writes_numbers() {
    for n in [0usize, 1, 9, 10, 11, 99, 100, 101, 4096, 1234567890, usize::MAX] {
        let mut out = String::from("n=");
        push_decimal(&mut out, n);
        assert_eq!(out, format!("n={}", n));
    }
}

#[test]
fn texts_stand_in_the_order_of_the_dictionary() {
    assert_eq!(compare_texts("", ""), TextOrder::Same);
    assert_eq!(compare_texts("abc", "abc"), TextOrder::Same);
    assert_eq!(compare_texts("", "a"), TextOrder::Before);
    assert_eq!(compare_texts("a", ""), TextOrder::After);
    assert_eq!(compare_texts("ab", "abc"), TextOrder::Before);
    assert_eq!(compare_texts("abd", "abc"), TextOrder::After);
    assert_eq!(compare_texts("B", "a"), TextOrder::Before);
    assert_eq!(compare_texts("z", "\u{e9}"), TextOrder::Before);
}

#[test]
fn the_order_of_texts_agrees_with_the_standard_order() {
    let samples = ["", "a", "ab", "abc", "b", "B", "\u{e9}", "z", "\u{10000}", "\u{ffff}"];
    for a in samples {
        for b in samples {
            let expected = match a.cmp(b) {
                std::cmp::Ordering::Less => TextOrder::Before,
                std::cmp::Ordering::Equal => TextOrder::Same,
                std::cmp::Ordering::Greater => TextOrder::After,
            };
            assert_eq!(compare_texts(a, b), expected);
        }
    }
}

#[test]
fn numbers_are_written_with_their_sign() {
    for n in [0i128, 1, -1, 9, -9, 10, -10, 12345, -12345, i128::MAX, i128::MIN, i128::MIN + 1] {
        let mut out = String::from("n=");
        pomorks::text::push_signed_decimal(&mut out, n);
        assert_eq!(out, format!("n={}", n));
    }
    for n in [0u128, 7, 10, 1u128 << 64, u128::MAX] {
        let mut out = String::new();
        pomorks::text::push_wide_decimal(&mut out, n);
        assert_eq!(out, n.to_string());
    }
}
