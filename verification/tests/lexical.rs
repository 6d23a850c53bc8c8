use clouddesk::lexical::{next_word, parse_u16, parse_u64, push_i64};

fn chars(s: &str) -> Vec<char> {
    s.chars().collect()
}

#[test]
fn unsigned_parsing_matches_str_parse() {
    for s in ["0", "+7", "65535", "65536", "", "+", "-1", " 1", "00012", "1a"] {
        assert_eq!(parse_u16(&chars(s)), s.parse::<u16>().ok(), "{s:?}");
    }
    for s in ["18446744073709551615", "18446744073709551616", "42"] {
        assert_eq!(parse_u64(&chars(s)), s.parse::<u64>().ok(), "{s:?}");
    }
}

#[test]
fn words_and_integer_text() {
    let line = chars("  GET   /x HTTP/1.1");
    assert_eq!(next_word(&line, 0), (2, 5));
    assert_eq!(next_word(&line, 5), (8, 10));
    let mut out = Vec::new();
    push_i64(-42, &mut out);
    assert_eq!(out.iter().collect::<String>(), "-42");
}
