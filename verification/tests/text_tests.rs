use wifi_hotspot::numeric::{parse_i32_chars, parse_u32_chars, parse_u64_chars, push_decimal, push_pad2};
use wifi_hotspot::text::{
    char_is_ws, lowercase_chars, remove_char, rsplitn_chars, split_lines, split_on_char,
    split_words, trim_chars,
};

fn chars(s: &str) -> Vec<char> {
    s.chars().collect()
}

fn strings(v: Vec<Vec<char>>) -> Vec<String> {
    v.into_iter().map(|c| c.into_iter().collect()).collect()
}

const SAMPLES: &[&str] = &[
    "",
    "\n",
    "a",
    "a\n",
    "a\nb",
    "a\r\nb\r\n",
    "a\r",
    "foo\nbar\n\r\nbaz\r",
    "\n\n",
    "  Interface wlan0  \n\tssid x\n",
    "x\u{a0}y\u{3000}z\u{2028}w",
    "a:b::c:d",
    "AA\\:BB\\:CC:Net:6:2437 MHz",
    "   ",
    "\u{85}lead and trail\u{205f}",
];

#[test]
fn lines_match_std() {
    for s in SAMPLES {
        let expected: Vec<String> = s.lines().map(|l| l.to_string()).collect();
        assert_eq!(strings(split_lines(&chars(s))), expected, "text {:?}", s);
    }
}

#[test]
fn trim_matches_std() {
    for s in SAMPLES {
        let t: String = trim_chars(&chars(s)).into_iter().collect();
        assert_eq!(t, s.trim(), "text {:?}", s);
    }
}

#[test]
fn words_match_std() {
    for s in SAMPLES {
        let expected: Vec<String> = s.split_whitespace().map(|w| w.to_string()).collect();
        assert_eq!(strings(split_words(&chars(s))), expected, "text {:?}", s);
    }
}

#[test]
fn split_matches_std() {
    for s in SAMPLES {
        let expected: Vec<String> = s.split(':').map(|w| w.to_string()).collect();
        assert_eq!(strings(split_on_char(&chars(s), ':')), expected, "text {:?}", s);
    }
}

#[test]
fn rsplitn_matches_std() {
    for s in SAMPLES {
        for n in 1..6 {
            let expected: Vec<String> = s.rsplitn(n, ':').map(|w| w.to_string()).collect();
            assert_eq!(strings(rsplitn_chars(&chars(s), n, ':')), expected, "text {:?} n {}", s, n);
        }
    }
}

#[test]
fn remove_char_matches_replace() {
    for s in SAMPLES {
        let r: String = remove_char(&chars(s), '\\').into_iter().collect();
        assert_eq!(r, s.replace('\\', ""));
    }
}

#[test]
fn whitespace_class_matches_std() {
    for u in 0u32..0x3100 {
        if let Some(c) = char::from_u32(u) {
            assert_eq!(char_is_ws(c), c.is_whitespace(), "char {:x}", u);
        }
    }
}

const NUMBERS: &[&str] = &[
    "", "+", "-", "0", "007", "+12", "-12", "-0", "4294967295", "4294967296", "2147483647",
    "2147483648", "-2147483648", "-2147483649", "18446744073709551615", "18446744073709551616",
    "1a", " 1", "1 ", "+-1", "-+1", "99999999999999999999999", "١",
];

#[test]
fn integer_parsing_matches_std() {
    for s in NUMBERS {
        let c = chars(s);
        assert_eq!(parse_u32_chars(&c), s.parse::<u32>().ok(), "u32 {:?}", s);
        assert_eq!(parse_u64_chars(&c), s.parse::<u64>().ok(), "u64 {:?}", s);
        assert_eq!(parse_i32_chars(&c), s.parse::<i32>().ok(), "i32 {:?}", s);
    }
}

#[test]
fn decimal_writing_matches_std() {
    for n in [0u64, 7, 10, 99, 100, 12345, u64::MAX] {
        let mut out = Vec::new();
        push_decimal(&mut out, n);
        assert_eq!(out.into_iter().collect::<String>(), n.to_string());
        let mut p = Vec::new();
        push_pad2(&mut p, n);
        assert_eq!(p.into_iter().collect::<String>(), format!("{:02}", n));
    }
}

#[test]
fn lowercase_matches_std() {
    for s in ["AA:BB:CC:DD:EE:FF", "Straße ÀÉ", "ΑΣ", "already"] {
        let l: String = lowercase_chars(&chars(s)).into_iter().collect();
        assert_eq!(l, s.to_lowercase());
        assert_ne!(l, "");
    }
}
