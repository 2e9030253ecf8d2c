use email_tool::analysis::str_lt;
use email_tool::redirect::request_target;
use email_tool::text::{decimal_string, is_whitespace, token_at, trim};

const SAMPLES: [&str; 12] = [
    "",
    " ",
    "GET / HTTP/1.1",
    "  a\u{2003}b\tc  ",
    "\u{85}x\u{a0}",
    "é",
    "z",
    "ab",
    "abc",
    "Ab",
    "\r\n",
    "日本 語",
];

#[test]
fn whitespace_is_char_is_whitespace() {
    for code in 0u32..0x11000 {
        if let Some(c) = char::from_u32(code) {
            assert_eq!(is_whitespace(c), c.is_whitespace(), "U+{code:04X}");
        }
    }
}

#[test]
fn trim_is_str_trim() {
    for s in SAMPLES {
        assert_eq!(trim(s), s.trim());
    }
}

#[test]
fn token_at_is_split_whitespace() {
    for s in SAMPLES {
        for n in 0..4 {
            assert_eq!(token_at(s, n), s.split_whitespace().nth(n).map(|t| t.to_string()));
        }
    }
}

#[test]
fn request_target_is_lines_then_words() {
    for s in ["GET /a HTTP/1.1\r\nHost: h", "POST /b\nX", "one", "", "\r\n", "a  b\r\n"] {
        let expected = s.lines().next().unwrap_or("").split_whitespace().nth(1).unwrap_or("/?");
        assert_eq!(request_target(s), expected);
    }
}

#[test]
fn str_lt_is_string_order() {
    for a in SAMPLES {
        for b in SAMPLES {
            assert_eq!(str_lt(a, b), a < b, "{a:?} < {b:?}");
        }
    }
}

#[test]
fn decimal_string_is_to_string() {
    let mut n: u64 = 1;
    while n < u64::MAX / 3 {
        assert_eq!(decimal_string(n), n.to_string());
        assert_eq!(decimal_string(n - 1), (n - 1).to_string());
        n = n * 3 + 1;
    }
}
