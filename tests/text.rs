use net_monitor::text::{chars_of, parse_decimal, split_fields, split_lines};

fn chars(s: &str) -> Vec<char> {
    s.chars().collect()
}

fn strings(v: Vec<Vec<char>>) -> Vec<String> {
    v.into_iter().map(|x| x.into_iter().collect()).collect()
}

#[test]
fn decimal_numbers() {
    assert_eq!(parse_decimal(&chars("0")), Some(0));
    assert_eq!(parse_decimal(&chars("+12")), Some(12));
    assert_eq!(parse_decimal(&chars("007")), Some(7));
    assert_eq!(parse_decimal(&chars("18446744073709551615")), Some(u64::MAX));
}

#[test]
fn decimal_rejections() {
    assert_eq!(parse_decimal(&chars("18446744073709551616")), None);
    assert_eq!(parse_decimal(&chars("")), None);
    assert_eq!(parse_decimal(&chars("+")), None);
    assert_eq!(parse_decimal(&chars("-1")), None);
    assert_eq!(parse_decimal(&chars("12a")), None);
    assert_eq!(parse_decimal(&chars("1 2")), None);
}

#[test]
fn decimal_agrees_with_std() {
    for s in ["1", "+0", "99999999999999999999", "4x", "", "++1", "٣"] {
        assert_eq!(parse_decimal(&chars(s)), s.parse::<u64>().ok());
    }
}

#[test]
fn fields_split_on_unicode_space() {
    let s = "  a\tbb\u{3000}c\u{a0}\u{2009}d  ";
    assert_eq!(strings(split_fields(&chars(s))), vec!["a", "bb", "c", "d"]);
    let t = " x  y\u{85}z ";
    let std_split: Vec<String> = t.split_whitespace().map(String::from).collect();
    assert_eq!(strings(split_fields(&chars(t))), std_split);
}

#[test]
fn lines_split_at_newlines() {
    assert_eq!(strings(split_lines(&chars("a\n\nb"))), vec!["a", "", "b"]);
    assert_eq!(strings(split_lines(&chars(""))), vec![""]);
    assert_eq!(strings(split_lines(&chars("x\n"))), vec!["x", ""]);
}

#[test]
fn chars_keep_order() {
    assert_eq!(chars_of("héllo"), vec!['h', 'é', 'l', 'l', 'o']);
}
