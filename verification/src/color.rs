//! Colours written in hexadecimal, as `RRGGBB` or `RRGGBBAA` with or without a
//! leading `#`.

use crate::error::{io_error, Error, ErrorKind};
use crate::text::chars_of;
use vstd::prelude::*;

verus! {

/// A colour. Each channel counts in steps of 1/255 from 0, which is none of
/// it, to 255, which is all of it.
#[derive(Clone, Copy, Debug, PartialEq, Eq, Structural)]
pub struct Color {
    pub r: u8,
    pub g: u8,
    pub b: u8,
    pub a: u8,
}

impl Default for Color {
    /// White, and opaque.
    fn default() -> (c: Color)
        ensures
            c == (Color { r: 255, g: 255, b: 255, a: 255 }),
    {
        Color { r: 255, g: 255, b: 255, a: 255 }
    }
}

/// The number that a hexadecimal digit stands for, in either case.
pub open spec fn hex_digit(c: char) -> Option<u8> {
    if '0' <= c <= '9' {
        Some((c as u32 - '0' as u32) as u8)
    } else if 'a' <= c <= 'f' {
        Some((c as u32 - 'a' as u32 + 10) as u8)
    } else if 'A' <= c <= 'F' {
        Some((c as u32 - 'A' as u32 + 10) as u8)
    } else {
        None
    }
}

/// Whether `s` holds hexadecimal digits only.
pub open spec fn all_hex(s: Seq<char>) -> bool {
    forall|k: int| 0 <= k < s.len() ==> (#[trigger] hex_digit(s[k])) is Some
}

/// The number that the digits of `s` write in base sixteen, as far as a byte
/// holds it: with more than two digits, the last two count.
pub open spec fn hex_value(s: Seq<char>) -> int
    decreases s.len(),
{
    if s.len() == 0 {
        0
    } else {
        (16 * hex_value(s.drop_last()) + hex_digit(s.last()).unwrap_or(0)) % 256
    }
}

/// The byte that `s` writes, or the error of a text that holds anything but
/// hexadecimal digits.
pub open spec fn byte_of(s: Seq<char>) -> Result<u8, Error> {
    if all_hex(s) {
        Ok(hex_value(s) as u8)
    } else {
        Err(Error { kind: ErrorKind::InvalidChar })
    }
}

/// Two digits write sixteen times the first plus the second.
pub proof fn lemma_hex_value_of_two(s: Seq<char>)
    requires
        s.len() == 2,
        all_hex(s),
    ensures
        hex_value(s) == 16 * hex_digit(s[0]).unwrap() + hex_digit(s[1]).unwrap(),
{
    reveal_with_fuel(hex_value, 3);
}

/// The digit that `c` stands for.
fn hex_digit_of(c: char) -> (d: Option<u8>)
    ensures
        d == hex_digit(c),
        d matches Some(v) ==> v < 16,
{
    if '0' <= c && c <= '9' {
        Some((c as u32 - '0' as u32) as u8)
    } else if 'a' <= c && c <= 'f' {
        Some((c as u32 - 'a' as u32 + 10) as u8)
    } else if 'A' <= c && c <= 'F' {
        Some((c as u32 - 'A' as u32 + 10) as u8)
    } else {
        None
    }
}

/// The byte that the characters of `cs` from `from` up to `to` write.
fn hex_range_to_byte(cs: &Vec<char>, from: usize, to: usize) -> (r: Result<u8, Error>)
    requires
        from <= to <= cs.len(),
    ensures
        r == byte_of(cs@.subrange(from as int, to as int)),
{
    let ghost s = cs@.subrange(from as int, to as int);
    let mut result: u8 = 0;
    let mut i: usize = from;
    while i < to
        invariant
            from <= i <= to <= cs.len(),
            s == cs@.subrange(from as int, to as int),
            all_hex(s.take(i - from)),
            result == hex_value(s.take(i - from)),
        decreases to - i,
    {
        let ghost k = i - from;
        let h = match hex_digit_of(cs[i]) {
            Some(h) => h,
            None => {
                return Err(io_error(ErrorKind::InvalidChar));
            },
        };
        proof {
            assert(s.take(k + 1).drop_last() =~= s.take(k));
            assert forall|m: int| 0 <= m < k + 1 implies (#[trigger] hex_digit(s.take(k + 1)[m]))
                is Some by {}
        }
        let low: u8 = result % 16;
        assert((16 * result + h) % 256 == 16 * low + h) by (nonlinear_arith)
            requires
                low == result % 16,
                h < 16,
        ;
        result = low * 16 + h;
        i += 1;
    }
    assert(s.take(to - from) =~= s);
    Ok(result)
}

/// Reads a byte from hexadecimal digits of either case. With more than two
/// digits the last two count; without any the byte is 0.
pub fn hex_to_byte(hex: &str) -> (r: Result<u8, Error>)
    ensures
        r == byte_of(hex@),
{
    let cs = chars_of(hex);
    assert(cs@.subrange(0, cs.len() as int) =~= hex@);
    hex_range_to_byte(&cs, 0, cs.len())
}

/// How many bytes `c` takes in UTF-8.
pub open spec fn utf8_len(c: char) -> nat {
    let u = c as u32;
    if u < 0x80 {
        1
    } else if u < 0x800 {
        2
    } else if u < 0x1_0000 {
        3
    } else {
        4
    }
}

/// How many characters of `s` its first two bytes hold, where a character
/// ends with the second byte: two characters of one byte, or one of two.
/// `None` where `s` is shorter than two bytes, or where its second and third
/// byte belong to one character.
pub open spec fn cut(s: Seq<char>) -> Option<nat> {
    if s.len() >= 1 && utf8_len(s[0]) == 2 {
        Some(1)
    } else if s.len() >= 2 && utf8_len(s[0]) == 1 && utf8_len(s[1]) == 1 {
        Some(2)
    } else {
        None
    }
}

/// What is left of a colour after its red, green and blue: nothing, then the
/// colour is opaque, or the two digits of its alpha.
pub open spec fn with_alpha(r: u8, g: u8, b: u8, rest: Seq<char>) -> Result<Color, Error> {
    if rest.len() == 0 {
        Ok(Color { r, g, b, a: 255 })
    } else if rest.len() == 1 {
        Err(Error { kind: ErrorKind::InsufficientAlpha })
    } else if rest.len() == 2 {
        match byte_of(rest) {
            Ok(a) => Ok(Color { r, g, b, a }),
            Err(e) => Err(e),
        }
    } else {
        Err(Error { kind: ErrorKind::TrailingCharacters })
    }
}

/// The channel at the front of `s`, cut from it as two bytes, and what
/// follows it. `None` where it cannot be cut.
pub open spec fn channel(s: Seq<char>) -> Option<(Result<u8, Error>, Seq<char>)> {
    match cut(s) {
        None => None,
        Some(n) => Some((byte_of(s.take(n as int)), s.skip(n as int))),
    }
}

/// The colour that `hex` writes: after an optional `#`, two digits each for
/// red, green and blue, and then nothing or two digits for alpha. The first
/// channel that is no byte gives its error. `None` where the text ends before
/// blue is cut from it, or a cut would part a character: such a text is no
/// input of `Color::from_hex`.
pub open spec fn color_of(hex: Seq<char>) -> Option<Result<Color, Error>> {
    let digits = if hex.len() > 0 && hex[0] == '#' {
        hex.skip(1)
    } else {
        hex
    };
    match channel(digits) {
        None => None,
        Some((Err(e), _)) => Some(Err(e)),
        Some((Ok(r), after_red)) => match channel(after_red) {
            None => None,
            Some((Err(e), _)) => Some(Err(e)),
            Some((Ok(g), after_green)) => match channel(after_green) {
                None => None,
                Some((Err(e), _)) => Some(Err(e)),
                Some((Ok(b), after_blue)) => Some(with_alpha(r, g, b, after_blue)),
            },
        },
    }
}

/// Two hexadecimal digits at the front of `s` are a channel.
proof fn lemma_channel_of_two_digits(s: Seq<char>)
    requires
        s.len() >= 2,
        hex_digit(s[0]) is Some,
        hex_digit(s[1]) is Some,
    ensures
        channel(s) == Some(
            (
                Ok::<u8, Error>((16 * hex_digit(s[0]).unwrap() + hex_digit(s[1]).unwrap()) as u8),
                s.skip(2),
            ),
        ),
{
    let head = s.take(2);
    assert forall|k: int| 0 <= k < head.len() implies (#[trigger] hex_digit(head[k])) is Some by {}
    lemma_hex_value_of_two(head);
}

/// Six hexadecimal digits, with or without `#` before them, write the
/// opaque colour whose channels are the three pairs.
pub proof fn lemma_color_of_six_digits(hex: Seq<char>, digits: Seq<char>)
    requires
        hex == digits || hex == seq!['#'] + digits,
        digits.len() == 6,
        all_hex(digits),
    ensures
        color_of(hex) == Some(
            Ok::<_, Error>(
                Color {
                    r: (16 * hex_digit(digits[0]).unwrap() + hex_digit(digits[1]).unwrap()) as u8,
                    g: (16 * hex_digit(digits[2]).unwrap() + hex_digit(digits[3]).unwrap()) as u8,
                    b: (16 * hex_digit(digits[4]).unwrap() + hex_digit(digits[5]).unwrap()) as u8,
                    a: 255,
                },
            ),
        ),
{
    assert forall|k: int| 0 <= k < 6 implies (#[trigger] hex_digit(digits[k])) is Some by {}
    if hex != digits {
        assert(hex.skip(1) =~= digits);
    }
    let d1 = digits.skip(2);
    let d2 = d1.skip(2);
    lemma_channel_of_two_digits(digits);
    lemma_channel_of_two_digits(d1);
    lemma_channel_of_two_digits(d2);
}

/// Eight hexadecimal digits, with or without `#` before them, write the
/// colour whose channels are the four pairs.
pub proof fn lemma_color_of_eight_digits(hex: Seq<char>, digits: Seq<char>)
    requires
        hex == digits || hex == seq!['#'] + digits,
        digits.len() == 8,
        all_hex(digits),
    ensures
        color_of(hex) == Some(
            Ok::<_, Error>(
                Color {
                    r: (16 * hex_digit(digits[0]).unwrap() + hex_digit(digits[1]).unwrap()) as u8,
                    g: (16 * hex_digit(digits[2]).unwrap() + hex_digit(digits[3]).unwrap()) as u8,
                    b: (16 * hex_digit(digits[4]).unwrap() + hex_digit(digits[5]).unwrap()) as u8,
                    a: (16 * hex_digit(digits[6]).unwrap() + hex_digit(digits[7]).unwrap()) as u8,
                },
            ),
        ),
{
    assert forall|k: int| 0 <= k < 8 implies (#[trigger] hex_digit(digits[k])) is Some by {}
    if hex != digits {
        assert(hex.skip(1) =~= digits);
    }
    let d1 = digits.skip(2);
    let d2 = d1.skip(2);
    let d3 = d2.skip(2);
    lemma_channel_of_two_digits(digits);
    lemma_channel_of_two_digits(d1);
    lemma_channel_of_two_digits(d2);
    assert forall|k: int| 0 <= k < d3.len() implies (#[trigger] hex_digit(d3[k])) is Some by {}
    lemma_hex_value_of_two(d3);
}

/// Reads the channel that starts at `from`, and says where it ends; `None`
/// where no channel can be cut there.
fn read_channel(cs: &Vec<char>, from: usize) -> (r: Option<(Result<u8, Error>, usize)>)
    requires
        from <= cs.len(),
    ensures
        match r {
            Some((byte, to)) => {
                &&& from <= to <= cs.len()
                &&& channel(cs@.skip(from as int)) == Some((byte, cs@.skip(to as int)))
            },
            None => channel(cs@.skip(from as int)) is None,
        },
{
    let ghost s = cs@.skip(from as int);
    let left = cs.len() - from;
    if left == 0 {
        return None;
    }
    let first: u32 = cs[from] as u32;
    let to: usize = if 0x80 <= first && first < 0x800 {
        from + 1
    } else if first < 0x80 && left >= 2 && (cs[from + 1] as u32) < 0x80 {
        from + 2
    } else {
        return None;
    };
    assert(s.take(to - from) =~= cs@.subrange(from as int, to as int));
    Some((hex_range_to_byte(cs, from, to), to))
}

/// Reads what follows blue.
fn read_alpha(cs: &Vec<char>, from: usize, r: u8, g: u8, b: u8) -> (c: Result<Color, Error>)
    requires
        from <= cs.len(),
    ensures
        c == with_alpha(r, g, b, cs@.skip(from as int)),
{
    let left = cs.len() - from;
    if left == 0 {
        Ok(Color { r, g, b, a: 255 })
    } else if left == 1 {
        Err(io_error(ErrorKind::InsufficientAlpha))
    } else if left == 2 {
        match hex_range_to_byte(cs, from, cs.len()) {
            Ok(a) => Ok(Color { r, g, b, a }),
            Err(e) => Err(e),
        }
    } else {
        Err(io_error(ErrorKind::TrailingCharacters))
    }
}

impl Color {
    /// Reads a colour, or says that the text cannot be cut into channels:
    /// `None` where it ends before blue is cut from it, or where a cut would
    /// part a character.
    pub fn parse(hex: &str) -> (r: Option<Result<Color, Error>>)
        ensures
            r == color_of(hex@),
    {
        let cs = chars_of(hex);
        let start: usize = if cs.len() > 0 && cs[0] == '#' {
            1
        } else {
            0
        };
        assert(cs@.skip(0) =~= cs@);
        let (red, after_red) = match read_channel(&cs, start) {
            Some(channel) => channel,
            None => {
                return None;
            },
        };
        let r = match red {
            Ok(v) => v,
            Err(e) => {
                return Some(Err(e));
            },
        };
        let (green, after_green) = match read_channel(&cs, after_red) {
            Some(channel) => channel,
            None => {
                return None;
            },
        };
        let g = match green {
            Ok(v) => v,
            Err(e) => {
                return Some(Err(e));
            },
        };
        let (blue, after_blue) = match read_channel(&cs, after_green) {
            Some(channel) => channel,
            None => {
                return None;
            },
        };
        let b = match blue {
            Ok(v) => v,
            Err(e) => {
                return Some(Err(e));
            },
        };
        Some(read_alpha(&cs, after_blue, r, g, b))
    }

    /// Reads a colour. A text that holds anything but hexadecimal digits
    /// where a channel stands is in error, and so is one with one character
    /// or more than two after blue.
    pub fn from_hex(hex: &str) -> (r: Result<Color, Error>)
        requires
            color_of(hex@) is Some,
        ensures
            Some(r) == color_of(hex@),
    {
        match Color::parse(hex) {
            Some(r) => r,
            None => vstd::pervasive::unreached(),
        }
    }
}

} // verus!
