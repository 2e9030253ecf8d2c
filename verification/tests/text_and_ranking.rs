use email_tool::rank::{rank_by_count, top_by_count};
use email_tool::text::{str_concat, decimal_string, str_eq, token_at, trim};

#[test]
fn trim_removes_surrounding_whitespace() {
    assert_eq!(trim("  {\"a\":1}\r\n"), "{\"a\":1}");
    assert_eq!(trim("\u{3000}x y\u{a0}"), "x y");
    assert_eq!(trim("   "), "");
    assert_eq!(trim(""), "");
}

#[test]
fn trim_twice_is_trim_once() {
    for s in ["  a b  ", "\t\n", "x", " \u{2028}y\u{85} "] {
        let once = trim(s);
        assert_eq!(trim(&once), once);
    }
}

#[test]
fn token_at_counts_whitespace_separated_words() {
    assert_eq!(token_at("GET /?code=1 HTTP/1.1", 1), Some("/?code=1".to_string()));
    assert_eq!(token_at("  GET\t\t/x  ", 0), Some("GET".to_string()));
    assert_eq!(token_at("  GET\t\t/x  ", 1), Some("/x".to_string()));
    assert_eq!(token_at("GET", 1), None);
    assert_eq!(token_at("", 0), None);
}

#[test]
fn decimal_string_writes_plain_decimal() {
    assert_eq!(decimal_string(0), "0");
    assert_eq!(decimal_string(7), "7");
    assert_eq!(decimal_string(500), "500");
    assert_eq!(decimal_string(u64::MAX), u64::MAX.to_string());
}

#[test]
fn string_helpers() {
    assert_eq!(str_concat("ab", "cd"), "abcd");
    assert!(str_eq("code", "code"));
    assert!(!str_eq("code", "cod"));
}

#[test]
fn rank_orders_by_count_descending() {
    let r = rank_by_count(vec![("a", 1u64), ("b", 5), ("c", 3), ("d", 5)]);
    let counts: Vec<u64> = r.iter().map(|e| e.1).collect();
    assert_eq!(counts, vec![5, 5, 3, 1]);
    let mut keys: Vec<&str> = r.iter().map(|e| e.0).collect();
    keys.sort();
    assert_eq!(keys, vec!["a", "b", "c", "d"]);
}

#[test]
fn top_keeps_the_largest_counts() {
    let r = top_by_count(vec![("a", 1u64), ("b", 5), ("c", 3), ("d", 4)], 2);
    assert_eq!(r, vec![("b", 5), ("d", 4)]);
    let all = top_by_count(vec![("a", 1u64)], 10);
    assert_eq!(all, vec![("a", 1)]);
    let none = top_by_count(Vec::<(u8, u64)>::new(), 10);
    assert!(none.is_empty());
}
