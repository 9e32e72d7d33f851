use oscar::text::chars_eq_str;
use oscar::text::chars_of;
use oscar::text::parse_usize;
use oscar::text::push_decimal;
use oscar::text::split_path;
use oscar::text::str_eq;

fn chars(s: &str) -> Vec<char> {
    s.chars().collect()
}

fn segments(s: &str) -> Vec<String> {
    split_path(&chars(s)).into_iter().map(|v| v.into_iter().collect()).collect()
}

#[test]
fn split_drops_empty_segments() {
    assert_eq!(segments("/track/1/volume/db"), vec!["track", "1", "volume", "db"]);
    assert_eq!(segments("//a///b/"), vec!["a", "b"]);
    assert_eq!(segments(""), Vec::<String>::new());
    assert_eq!(segments("///"), Vec::<String>::new());
    assert_eq!(segments("abc"), vec!["abc"]);
}

#[test]
fn parse_matches_std() {
    for s in ["0", "7", "+7", "007", "", "+", "-1", "1a", " 1", "18446744073709551615",
        "18446744073709551616", "99999999999999999999999", "++1", "4294967295"] {
        assert_eq!(parse_usize(&chars(s)), s.parse::<usize>().ok(), "input {:?}", s);
    }
}

#[test]
fn decimal_matches_format() {
    for n in [0usize, 5, 10, 99, 100, 12345, usize::MAX] {
        let mut s = String::from("x");
        push_decimal(&mut s, n);
        assert_eq!(s, format!("x{}", n));
    }
}

#[test]
fn decimal_parses_back() {
    for n in [0usize, 1, 9, 10, 255, 65536, usize::MAX] {
        let mut s = String::new();
        push_decimal(&mut s, n);
        assert_eq!(parse_usize(&chars(&s)), Some(n));
    }
}

#[test]
fn char_comparisons() {
    assert_eq!(chars_of("héllo"), vec!['h', 'é', 'l', 'l', 'o']);
    assert!(chars_eq_str(&chars("track"), "track"));
    assert!(!chars_eq_str(&chars("track"), "tracks"));
    assert!(!chars_eq_str(&chars("trade"), "track"));
    assert!(str_eq("pan", "pan"));
    assert!(!str_eq("pan", "Pan"));
    assert!(str_eq("", ""));
}
