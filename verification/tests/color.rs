use scene_mesh::color::{hex_to_byte, Color};
use scene_mesh::error::{Error, ErrorKind};

fn ratio(channel: u8) -> f32 {
    f32::from(channel) / 255.0
}

fn ratios(c: Color) -> (f32, f32, f32, f32) {
    (ratio(c.r), ratio(c.g), ratio(c.b), ratio(c.a))
}

#[test]
fn test_color() -> Result<(), Error> {
    assert_eq!(Color::from_hex("00ff00")?, Color { r: 0, g: 255, b: 0, a: 255 });
    assert_eq!(ratios(Color::from_hex("00ff00")?), (0.0, 1.0, 0.0, 1.0));
    assert_eq!(Color::from_hex("#00ff00")?, Color { r: 0, g: 255, b: 0, a: 255 });
    assert_eq!(ratios(Color::from_hex("#00ff00")?), (0.0, 1.0, 0.0, 1.0));
    assert_eq!(Color::from_hex("#00ff0000")?, Color { r: 0, g: 255, b: 0, a: 0 });
    assert_eq!(ratios(Color::from_hex("#00ff0000")?), (0.0, 1.0, 0.0, 0.0));
    Ok(())
}

#[test]
fn hex_to_byte_reads_both_cases() {
    assert_eq!(hex_to_byte("ff"), Ok(255));
    assert_eq!(hex_to_byte("FF"), Ok(255));
    assert_eq!(hex_to_byte("aB"), Ok(0xab));
    assert_eq!(hex_to_byte("10"), Ok(16));
    assert_eq!(hex_to_byte("7"), Ok(7));
    assert_eq!(hex_to_byte("09"), Ok(9));
}

#[test]
fn hex_to_byte_of_nothing_is_zero() {
    assert_eq!(hex_to_byte(""), Ok(0));
}

#[test]
fn hex_to_byte_keeps_the_last_two_digits() {
    assert_eq!(hex_to_byte("abc"), Ok(0xbc));
    assert_eq!(hex_to_byte("123456"), Ok(0x56));
}

#[test]
fn hex_to_byte_rejects_other_characters() {
    assert_eq!(hex_to_byte("fg"), Err(Error { kind: ErrorKind::InvalidChar }));
    assert_eq!(hex_to_byte(" 1"), Err(Error { kind: ErrorKind::InvalidChar }));
    assert_eq!(hex_to_byte("é"), Err(Error { kind: ErrorKind::InvalidChar }));
    assert_eq!(hex_to_byte("#0"), Err(Error { kind: ErrorKind::InvalidChar }));
}

#[test]
fn from_hex_reads_every_channel() {
    assert_eq!(Color::from_hex("#12aBcD"), Ok(Color { r: 0x12, g: 0xab, b: 0xcd, a: 255 }));
    assert_eq!(Color::from_hex("01020304"), Ok(Color { r: 1, g: 2, b: 3, a: 4 }));
    assert_eq!(Color::from_hex("#ffffff80"), Ok(Color { r: 255, g: 255, b: 255, a: 128 }));
}

#[test]
fn from_hex_wants_both_digits_of_alpha() {
    assert_eq!(Color::from_hex("00ff000"), Err(Error { kind: ErrorKind::InsufficientAlpha }));
    assert_eq!(Color::from_hex("#00ff00f"), Err(Error { kind: ErrorKind::InsufficientAlpha }));
}

#[test]
fn from_hex_rejects_what_follows_alpha() {
    assert_eq!(Color::from_hex("00ff00000"), Err(Error { kind: ErrorKind::TrailingCharacters }));
    assert_eq!(
        Color::from_hex("#00ff0000ff"),
        Err(Error { kind: ErrorKind::TrailingCharacters })
    );
}

#[test]
fn from_hex_rejects_other_characters() {
    let invalid = Err(Error { kind: ErrorKind::InvalidChar });
    assert_eq!(Color::from_hex("zz0000"), invalid);
    assert_eq!(Color::from_hex("00zz00"), invalid);
    assert_eq!(Color::from_hex("0000zz"), invalid);
    assert_eq!(Color::from_hex("000000zz"), invalid);
    assert_eq!(Color::from_hex("##0000"), invalid);
    // the first error counts, short as the text may be after it
    assert_eq!(Color::from_hex("zz"), invalid);
    // a character of two bytes fills the place of a channel
    assert_eq!(Color::from_hex("é0000"), invalid);
}

#[test]
fn default_color_is_opaque_white() {
    assert_eq!(Color::default(), Color { r: 255, g: 255, b: 255, a: 255 });
    assert_eq!(ratios(Color::default()), (1.0, 1.0, 1.0, 1.0));
}

#[test]
fn parse_reads_what_from_hex_reads() {
    assert_eq!(Color::parse("00ff00"), Some(Ok(Color { r: 0, g: 255, b: 0, a: 255 })));
    assert_eq!(Color::parse("#00ff0000"), Some(Ok(Color { r: 0, g: 255, b: 0, a: 0 })));
    assert_eq!(Color::parse("00ff000"), Some(Err(Error { kind: ErrorKind::InsufficientAlpha })));
    assert_eq!(Color::parse("zz"), Some(Err(Error { kind: ErrorKind::InvalidChar })));
    assert_eq!(Color::parse("é"), Some(Err(Error { kind: ErrorKind::InvalidChar })));
}

#[test]
fn parse_finds_a_text_that_ends_too_early() {
    assert_eq!(Color::parse(""), None);
    assert_eq!(Color::parse("#"), None);
    assert_eq!(Color::parse("0"), None);
    assert_eq!(Color::parse("00"), None);
    assert_eq!(Color::parse("00f"), None);
    assert_eq!(Color::parse("00ff"), None);
    assert_eq!(Color::parse("#00ff0"), None);
}

#[test]
fn parse_finds_a_cut_inside_a_character() {
    // one byte, then two: the second byte of the channel is half a character
    assert_eq!(Color::parse("0é0000"), None);
    // three bytes and four bytes
    assert_eq!(Color::parse("€00000"), None);
    assert_eq!(Color::parse("😀0000"), None);
    assert_eq!(Color::parse("00ff0é"), None);
}

#[test]
fn parse_agrees_with_cutting_by_bytes() {
    let texts = ["0é0000", "é0000", "00é000", "€0", "ab€", "#é", "#aé", "0011é", "00112é"];
    for text in texts {
        let digits = text.strip_prefix('#').unwrap_or(text);
        // the text can be cut where every channel before the first in error ends on a character
        let mut at = 0;
        let mut cut = true;
        for _ in 0..3 {
            if !digits.is_char_boundary(at + 2) || at + 2 > digits.len() {
                cut = false;
                break;
            }
            if hex_to_byte(&digits[at..at + 2]).is_err() {
                break;
            }
            at += 2;
        }
        assert_eq!(Color::parse(text).is_some(), cut, "{:?}", text);
    }
}
