use mcdata_rs::text::{parse_i32, parse_u32_range, str_eq, version_parts_of, chars_of, starts_with, contains_char};

fn chars(s: &str) -> Vec<char> {
    s.chars().collect()
}

#[test]
fn parse_i32_reads_like_std() {
    assert_eq!(parse_i32(&chars("758")), Some(758));
    assert_eq!(parse_i32(&chars("+5")), Some(5));
    assert_eq!(parse_i32(&chars("-0")), Some(0));
    assert_eq!(parse_i32(&chars("-2147483648")), Some(i32::MIN));
    assert_eq!(parse_i32(&chars("2147483647")), Some(i32::MAX));
    assert_eq!(parse_i32(&chars("2147483648")), None);
    assert_eq!(parse_i32(&chars("")), None);
    assert_eq!(parse_i32(&chars("-")), None);
    assert_eq!(parse_i32(&chars("1.18")), None);
    for s in ["0", "12", "-12", "+0", "99999999999", "1a", " 1"] {
        assert_eq!(parse_i32(&chars(s)), s.parse::<i32>().ok(), "input {s}");
    }
}

#[test]
fn parse_u32_reads_like_std() {
    for s in ["0", "18", "+7", "-1", "4294967295", "4294967296", "", "x"] {
        let c = chars(s);
        assert_eq!(parse_u32_range(&c, 0, c.len()), s.parse::<u32>().ok(), "input {s}");
    }
}

#[test]
fn version_parts_split_on_dots() {
    assert_eq!(version_parts_of("1.18.2"), vec![1, 18, 2]);
    assert_eq!(version_parts_of("1.19"), vec![1, 19]);
    assert_eq!(version_parts_of("1..x"), vec![1, 0, 0]);
    assert_eq!(version_parts_of(""), vec![0]);
    assert_eq!(version_parts_of("21w07a"), vec![0]);
}

#[test]
fn string_helpers() {
    assert!(str_eq("release", "release"));
    assert!(!str_eq("release", "snapshot"));
    assert!(!str_eq("rel", "release"));
    assert_eq!(chars_of("pc_1"), vec!['p', 'c', '_', '1']);
    assert!(starts_with(&chars("pc_1.18"), "pc_"));
    assert!(!starts_with(&chars("p"), "pc_"));
    assert!(contains_char("1.8", '.'));
    assert!(!contains_char("23w07a", '.'));
}
