use mfp::text::{chars_of, is_white_space_char, parse_u64, split_chars, trim_chars};

fn chars(s: &str) -> Vec<char> {
    s.chars().collect()
}

#[test]
fn parse_u64_matches_std() {
    for s in ["0", "42", "+7", "007", "", "+", "-1", " 1", "1 ", "1a", "18446744073709551615",
        "18446744073709551616", "99999999999999999999", "++1", "٣"] {
        assert_eq!(parse_u64(&chars(s)), s.parse::<u64>().ok(), "input {:?}", s);
    }
}

#[test]
fn split_matches_std() {
    for s in ["a,b,c", "", ",", "a,,b", ",a,", "abc"] {
        let ours: Vec<String> = split_chars(&chars(s), ',').iter().map(|p| p.iter().collect()).collect();
        let std: Vec<String> = s.split(',').map(String::from).collect();
        assert_eq!(ours, std, "input {:?}", s);
    }
}

#[test]
fn trim_matches_std() {
    for s in ["  a b  ", "", "   ", "\u{3000}x\u{a0}", "\t\n y \r", "z"] {
        let ours: String = trim_chars(&chars(s)).iter().collect();
        assert_eq!(ours, s.trim(), "input {:?}", s);
    }
}

#[test]
fn white_space_matches_std() {
    for code in 0u32..0x3100 {
        if let Some(c) = char::from_u32(code) {
            assert_eq!(is_white_space_char(c), c.is_whitespace(), "char {:?}", c);
        }
    }
}

#[test]
fn chars_of_keeps_every_char() {
    assert_eq!(chars_of("héllo ✓"), chars("héllo ✓"));
}
