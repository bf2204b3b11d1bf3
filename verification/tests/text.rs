use scene_mesh::text::{chars_of, is_whitespace, parse_u32, split_whitespace};

fn parsed(text: &str) -> Option<u32> {
    let cs = chars_of(text);
    parse_u32(&cs, 0, cs.len())
}

fn std_words(line: &str) -> Vec<String> {
    line.split_whitespace().map(String::from).collect()
}

#[test]
fn chars_of_keeps_every_character() {
    assert_eq!(chars_of(""), Vec::<char>::new());
    assert_eq!(chars_of("a é∑"), vec!['a', ' ', 'é', '∑']);
}

#[test]
fn whitespace_is_what_std_calls_whitespace() {
    for code in 0..=0x10_ffff_u32 {
        if let Some(c) = char::from_u32(code) {
            assert_eq!(is_whitespace(c), c.is_whitespace(), "U+{:04X}", code);
        }
    }
}

#[test]
fn whitespace_on_known_characters() {
    assert!(is_whitespace(' '));
    assert!(is_whitespace('\t'));
    assert!(is_whitespace('\n'));
    assert!(is_whitespace('\r'));
    assert!(is_whitespace('\u{a0}'));
    assert!(is_whitespace('\u{3000}'));
    assert!(!is_whitespace('a'));
    assert!(!is_whitespace('#'));
    assert!(!is_whitespace('\u{200b}'));
}

#[test]
fn split_whitespace_yields_the_words() {
    assert_eq!(split_whitespace("v 1.0 2.0 3.0"), vec!["v", "1.0", "2.0", "3.0"]);
    assert_eq!(split_whitespace("  f 1/2/3\t4//6  \r"), vec!["f", "1/2/3", "4//6"]);
    assert_eq!(split_whitespace(""), Vec::<String>::new());
    assert_eq!(split_whitespace(" \t \u{a0}"), Vec::<String>::new());
    assert_eq!(split_whitespace("one"), vec!["one"]);
}

#[test]
fn split_whitespace_agrees_with_std() {
    let lines = [
        "",
        " ",
        "a",
        " a",
        "a ",
        "a b",
        "a  b",
        "\ta\n b\r\nc",
        "g  chair_leg  extra",
        "v\u{a0}1\u{2003}2\u{3000}3",
        "é ∑ 日本語\u{2028}x",
        "f 1/1/1 2/2/2 3/3/3",
        "\u{85}edge\u{1680}",
        "no\u{200b}break",
    ];
    for line in lines {
        assert_eq!(split_whitespace(line), std_words(line), "{:?}", line);
    }
}

#[test]
fn parse_u32_reads_digits() {
    assert_eq!(parsed("0"), Some(0));
    assert_eq!(parsed("7"), Some(7));
    assert_eq!(parsed("1234"), Some(1234));
    assert_eq!(parsed("007"), Some(7));
    assert_eq!(parsed("+5"), Some(5));
    assert_eq!(parsed("4294967295"), Some(u32::MAX));
    assert_eq!(parsed("0000000000000000000042"), Some(42));
}

#[test]
fn parse_u32_rejects_everything_else() {
    assert_eq!(parsed(""), None);
    assert_eq!(parsed("+"), None);
    assert_eq!(parsed("-"), None);
    assert_eq!(parsed("-5"), None);
    assert_eq!(parsed("++5"), None);
    assert_eq!(parsed("5+"), None);
    assert_eq!(parsed(" 5"), None);
    assert_eq!(parsed("5 "), None);
    assert_eq!(parsed("1_000"), None);
    assert_eq!(parsed("12a"), None);
    assert_eq!(parsed("1.0"), None);
    assert_eq!(parsed("0x10"), None);
    assert_eq!(parsed("１２"), None);
    assert_eq!(parsed("4294967296"), None);
    assert_eq!(parsed("99999999999999999999"), None);
}

#[test]
fn parse_u32_agrees_with_std() {
    let texts = [
        "", "+", "-", "0", "+0", "-0", "00", "1", "+1", "-1", "9", "10", "4294967295",
        "4294967296", "4294967300", "42949672950", "+4294967295", "+4294967296", "12x", "x12",
        "1 2", "٣", "1e3", "00000000004294967295", "00000000004294967296",
    ];
    for text in texts {
        assert_eq!(parsed(text), text.parse::<u32>().ok(), "{:?}", text);
    }
    for n in (0..=u32::MAX).step_by(65_521) {
        let text = format!("{}", n);
        assert_eq!(parsed(&text), Some(n));
    }
}

#[test]
fn parse_u32_reads_a_part_of_the_text() {
    let cs = chars_of("12/345/6");
    assert_eq!(parse_u32(&cs, 0, 2), Some(12));
    assert_eq!(parse_u32(&cs, 3, 6), Some(345));
    assert_eq!(parse_u32(&cs, 7, 8), Some(6));
    assert_eq!(parse_u32(&cs, 2, 6), None);
    assert_eq!(parse_u32(&cs, 3, 3), None);
}
