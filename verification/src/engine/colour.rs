//! Colours.
use std::str::FromStr;

use vstd::prelude::*;

use crate::error::{Error, ErrorView};

verus! {

/// A colour, as the red, green and blue of its sRGB value.
#[derive(Clone, Copy, Debug, PartialEq, Eq, Structural)]
pub struct Colour {
    pub red: u8,
    pub green: u8,
    pub blue: u8,
}

impl Colour {
    /// The colour of a light that is off.
    pub open spec fn spec_black() -> Colour {
        Colour { red: 0, green: 0, blue: 0 }
    }

    /// The colour of a light that is off.
    pub fn black() -> (r: Colour)
        ensures
            r == Colour::spec_black(),
    {
        Colour { red: 0, green: 0, blue: 0 }
    }

    /// Reads a colour from its hexadecimal form, such as `#ffffff` or `#fff`,
    /// the `#` optional.
    ///
    /// A text of the right length that is cut apart within a character is no
    /// input of this function; see [`splits_as_hex`].
    pub fn from_str(s: &str) -> (r: Result<Colour, Error>)
        requires
            splits(hex_code(vstd::utf8::encode_utf8(s@))),
        ensures
            match colour_of(hex_code(vstd::utf8::encode_utf8(s@))) {
                Some(colour) => r is Ok && r->Ok_0 == colour,
                None => r is Err && r->Err_0@ == ErrorView::InvalidColour(colour_error(s@)),
            },
    {
        match srgb_from_hex(s) {
            Ok((red, green, blue)) => Ok(Colour { red, green, blue }),
            Err(text) => Err(Error::InvalidColour(text)),
        }
    }

    /// The hexadecimal form of the colour, such as `#00ff7f`.
    pub fn to_string(&self) -> (r: String)
        ensures
            r@ == hex_text(*self),
    {
        let mut text = String::new();
        text.push('#');
        push_hex(&mut text, self.red);
        push_hex(&mut text, self.green);
        push_hex(&mut text, self.blue);
        assert(text@ == hex_text(*self));
        text
    }
}

// -- Hexadecimal form

/// The value of a hexadecimal digit, given as its character code.
pub open spec fn hex_digit(b: u8) -> Option<int> {
    if 0x30 <= b <= 0x39 {
        Some(b - 0x30)
    } else if 0x61 <= b <= 0x66 {
        Some(b - 0x61 + 10)
    } else if 0x41 <= b <= 0x46 {
        Some(b - 0x41 + 10)
    } else {
        None
    }
}

/// The value of two characters as a number of up to two hexadecimal digits:
/// two digits, or one behind a plus sign.
pub open spec fn hex_pair(a: u8, b: u8) -> Option<int> {
    match (hex_digit(a), hex_digit(b)) {
        (Some(high), Some(low)) => Some(16 * high + low),
        (None, Some(low)) if a == 0x2b => Some(low),
        _ => None,
    }
}

/// A colour's text without the leading `#`, as bytes.
pub open spec fn hex_code(text: Seq<u8>) -> Seq<u8> {
    if text.len() > 0 && text[0] == 0x23 {
        text.drop_first()
    } else {
        text
    }
}

/// Whether a character starts at this byte.
pub open spec fn starts_character(b: u8) -> bool {
    !(0x80 <= b < 0xc0)
}

/// Whether the code can be cut into one or two bytes for each of red, green
/// and blue, as far as it is read, without cutting through a character.
pub open spec fn splits(code: Seq<u8>) -> bool {
    if code.len() == 3 {
        starts_character(code[1]) && (hex_digit(code[0]) is Some ==> starts_character(code[2]))
    } else if code.len() == 6 {
        starts_character(code[2]) && (hex_pair(code[0], code[1]) is Some ==> starts_character(
            code[4],
        ))
    } else {
        true
    }
}

/// The colour that a code of three or six bytes stands for.
pub open spec fn colour_of(code: Seq<u8>) -> Option<Colour> {
    if code.len() == 3 {
        match (hex_digit(code[0]), hex_digit(code[1]), hex_digit(code[2])) {
            (Some(r), Some(g), Some(b)) => Some(
                Colour { red: (17 * r) as u8, green: (17 * g) as u8, blue: (17 * b) as u8 },
            ),
            _ => None,
        }
    } else if code.len() == 6 {
        match (
            hex_pair(code[0], code[1]),
            hex_pair(code[2], code[3]),
            hex_pair(code[4], code[5]),
        ) {
            (Some(r), Some(g), Some(b)) => Some(
                Colour { red: r as u8, green: g as u8, blue: b as u8 },
            ),
            _ => None,
        }
    } else {
        None
    }
}

/// The character of a hexadecimal digit.
pub open spec fn digit_char(n: u8) -> char {
    if n < 10 {
        (0x30 + n) as char
    } else {
        (0x61 + n - 10) as char
    }
}

/// The hexadecimal form of a colour.
pub open spec fn hex_text(colour: Colour) -> Seq<char> {
    seq![
        '#',
        digit_char(colour.red / 16),
        digit_char(colour.red % 16),
        digit_char(colour.green / 16),
        digit_char(colour.green % 16),
        digit_char(colour.blue / 16),
        digit_char(colour.blue % 16),
    ]
}

fn hex_char(n: u8) -> (r: char)
    requires
        n < 16,
    ensures
        r == digit_char(n),
{
    if n < 10 {
        (0x30 + n) as char
    } else {
        (0x61 + (n - 10)) as char
    }
}

fn push_hex(text: &mut String, n: u8)
    ensures
        final(text)@ == old(text)@.push(digit_char(n / 16)).push(digit_char(n % 16)),
{
    text.push(hex_char(n / 16));
    text.push(hex_char(n % 16));
}

/// Whether a code has the length of a colour.
pub open spec fn has_colour_length(code: Seq<u8>) -> bool {
    code.len() == 3 || code.len() == 6
}

/// What `palette` says of a text that has the length of a colour and is none.
pub uninterp spec fn digit_error(text: Seq<char>) -> Seq<char>;

/// What is said of a text that is no colour.
pub open spec fn colour_error(text: Seq<char>) -> Seq<char> {
    if has_colour_length(hex_code(vstd::utf8::encode_utf8(text))) {
        digit_error(text)
    } else {
        "invalid hex code format, please use format '#fff', 'fff', '#ffffff', 'ffffff', etc."@
    }
}

/// `palette::Srgb::<u8>::from_str`: a text of three or six bytes behind an
/// optional `#` is read as one or two hexadecimal digits for each of red,
/// green and blue, a single digit standing for both of a pair; where two are
/// read, the first may be a plus sign. Any other text is an error, handed on by
/// its own text: one of the wrong length is told which formats there are, and
/// one with a wrong digit gets the text that the standard library has for it,
/// which is named and not spelled out.
///
/// The function panics where a cut falls within a character, and reads red
/// before it cuts further.
#[verifier::external_body]
fn srgb_from_hex(s: &str) -> (r: Result<(u8, u8, u8), String>)
    requires
        splits(hex_code(vstd::utf8::encode_utf8(s@))),
    ensures
        match colour_of(hex_code(vstd::utf8::encode_utf8(s@))) {
            Some(colour) => r is Ok && r->Ok_0 == (colour.red, colour.green, colour.blue),
            None => r is Err && r->Err_0@ == (if has_colour_length(
                hex_code(vstd::utf8::encode_utf8(s@)),
            ) {
                digit_error(s@)
            } else {
                "invalid hex code format, please use format '#fff', 'fff', '#ffffff', 'ffffff', etc."@
            }),
        },
{
    palette::Srgb::<u8>::from_str(s).map(|c| c.into_components()).map_err(|e| e.to_string())
}

fn digit_value(b: u8) -> (r: Option<u8>)
    ensures
        match hex_digit(b) {
            Some(n) => r == Some(n as u8),
            None => r is None,
        },
{
    if 0x30 <= b && b <= 0x39 {
        Some((b - 0x30) as u8)
    } else if 0x61 <= b && b <= 0x66 {
        Some((b - 0x61 + 10) as u8)
    } else if 0x41 <= b && b <= 0x46 {
        Some((b - 0x41 + 10) as u8)
    } else {
        None
    }
}

fn at_character(b: u8) -> (r: bool)
    ensures
        r == starts_character(b),
{
    b < 0x80 || b >= 0xc0
}

/// Whether a text can be read by [`Colour::from_str`]: its three or six bytes
/// are not cut apart within a character.
pub fn splits_as_hex(s: &str) -> (r: bool)
    ensures
        r == splits(hex_code(vstd::utf8::encode_utf8(s@))),
{
    let bytes: &[u8] = s.as_bytes();
    let start: usize = if bytes.len() > 0 && bytes[0] == 0x23 { 1 } else { 0 };
    let ghost code = hex_code(bytes@);
    assert(forall|k: int| 0 <= k < code.len() ==> code[k] == bytes@[start + k]);
    let len: usize = bytes.len() - start;
    if len == 3 {
        at_character(bytes[start + 1]) && (digit_value(bytes[start]).is_none() || at_character(
            bytes[start + 2],
        ))
    } else if len == 6 {
        let plus = bytes[start] == 0x2b;
        let first = digit_value(bytes[start]).is_some() || plus;
        let second = digit_value(bytes[start + 1]).is_some();
        at_character(bytes[start + 2]) && (!(first && second) || at_character(bytes[start + 4]))
    } else {
        true
    }
}

/// Reading back the hexadecimal form of a colour gives the colour.
pub proof fn lemma_hex_reads_back(colour: Colour)
    ensures
        splits(hex_code(vstd::utf8::encode_utf8(hex_text(colour)))),
        colour_of(hex_code(vstd::utf8::encode_utf8(hex_text(colour)))) == Some(colour),
{
    let text = hex_text(colour);
    assert(forall|n: u8| 0 <= n < 16 ==> (#[trigger] digit_char(n)) as u32 <= 0x66);
    assert(vstd::utf8::is_ascii_chars(text));
    vstd::utf8::is_ascii_chars_encode_utf8(text);
    let code = hex_code(vstd::utf8::encode_utf8(text));
    assert(forall|n: u8| 0 <= n < 16 ==> hex_digit((#[trigger] digit_char(n)) as u8) == Some(n as int));
    assert(code.len() == 6);
}

/// A leading `#` makes no difference, and nothing but three or six bytes behind
/// it is a colour.
pub proof fn lemma_mark_is_optional(code: Seq<u8>)
    requires
        code.len() > 0 ==> code[0] != 0x23,
    ensures
        hex_code(seq![0x23u8] + code) == code,
        hex_code(code) == code,
        colour_of(code) is Some ==> code.len() == 3 || code.len() == 6,
{
    assert(hex_code(seq![0x23u8] + code) =~= code);
}

/// Three digits stand for six, each for two that are the same.
pub proof fn lemma_short_form(a: u8, b: u8, c: u8)
    requires
        a != 0x2b,
        b != 0x2b,
        c != 0x2b,
    ensures
        colour_of(seq![a, b, c]) == colour_of(seq![a, a, b, b, c, c]),
{
    let long = seq![a, a, b, b, c, c];
    let short = seq![a, b, c];
    assert(long.len() == 6 && short.len() == 3);
    assert(short[0] == a && short[1] == b && short[2] == c);
    assert(long[0] == a && long[1] == a && long[2] == b && long[3] == b && long[4] == c && long[5]
        == c);
}

/// The digits are the ten figures and the letters from a to f, small or
/// capital, and count from zero to fifteen. Of two, the first counts sixteen
/// times.
pub proof fn lemma_digits(n: int, a: u8, b: u8)
    requires
        0 <= n < 10,
    ensures
        hex_digit((0x30 + n) as u8) == Some(n),
        n < 6 ==> hex_digit((0x61 + n) as u8) == Some(10 + n),
        n < 6 ==> hex_digit((0x41 + n) as u8) == Some(10 + n),
        hex_digit(a) is Some ==> 0 <= hex_digit(a)->0 < 16,
        hex_digit(a) is Some <==> (0x30 <= a <= 0x39 || 0x61 <= a <= 0x66 || 0x41 <= a <= 0x46),
        hex_digit(a) is Some && hex_digit(b) is Some ==> hex_pair(a, b) == Some(
            16 * hex_digit(a)->0 + hex_digit(b)->0,
        ),
        hex_digit(b) is None ==> hex_pair(a, b) is None,
        hex_digit(a) is None && a != 0x2b ==> hex_pair(a, b) is None,
{
}

/// The hexadecimal form is a `#` and two digits each for red, green and blue,
/// the letters small.
pub proof fn lemma_hex_form(colour: Colour, i: int)
    requires
        0 <= i < 6,
    ensures
        hex_text(colour).len() == 7,
        hex_text(colour)[0] == '#',
        ({
            let digit = hex_text(colour)[i + 1] as u8;
            let part = if i < 2 {
                colour.red
            } else if i < 4 {
                colour.green
            } else {
                colour.blue
            };
            &&& 0x30 <= digit <= 0x39 || 0x61 <= digit <= 0x66
            &&& hex_digit(digit) == Some(
                if i % 2 == 0 {
                    part as int / 16
                } else {
                    part as int % 16
                },
            )
        }),
{
    assert(forall|n: u8| 0 <= n < 16 ==> hex_digit((#[trigger] digit_char(n)) as u8) == Some(
        n as int,
    ));
    assert(forall|n: u8| 0 <= n < 16 ==> (#[trigger] digit_char(n)) as u32 <= 0x66);
}

/// Black is a light that is off: nothing of any colour.
pub proof fn lemma_black_is_dark()
    ensures
        Colour::spec_black().red == 0,
        Colour::spec_black().green == 0,
        Colour::spec_black().blue == 0,
{
}

/// A text of plain characters is never cut apart within one.
pub proof fn lemma_plain_text_splits(code: Seq<u8>)
    requires
        forall|i: int| 0 <= i < code.len() ==> (#[trigger] code[i]) < 0x80,
    ensures
        splits(code),
{
}

/// A text of another length than a colour's is told the formats there are.
pub proof fn lemma_formats_are_told(text: Seq<char>)
    requires
        ({
            let code = hex_code(vstd::utf8::encode_utf8(text));
            code.len() != 3 && code.len() != 6
        }),
    ensures
        colour_error(text)
            == "invalid hex code format, please use format '#fff', 'fff', '#ffffff', 'ffffff', etc."@,
        colour_of(hex_code(vstd::utf8::encode_utf8(text))) is None,
{
}

} // verus!
