//! Colors written as hex strings: a `#` and the two hex digits of each of
//! three or four bytes, as in `#1a2b3c` and `#1a2b3cff`.
use vstd::prelude::*;
use vstd::pervasive::unreached;
use vstd::slice::slice_subrange;
use vstd::string::StringExecFns;
use vstd::string::StringSliceAdditionalSpecFns;

verus! {

/// The error of the `hex` crate. Nothing is known of a value of it.
#[verifier::external_type_specification]
#[verifier::external_body]
pub struct ExFromHexError(hex::FromHexError);

/// The value of a hex digit, upper or lower case; nothing for any other
/// byte.
pub open spec fn digit_value(digit: u8) -> Option<int> {
    if 48 <= digit <= 57 {
        Some(digit - 48)
    } else if 97 <= digit <= 102 {
        Some(digit - 87)
    } else if 65 <= digit <= 70 {
        Some(digit - 55)
    } else {
        None
    }
}

/// The lower-case hex digit of a value below sixteen.
pub open spec fn digit_of(value: int) -> u8 {
    if value < 10 {
        (48 + value) as u8
    } else {
        (87 + value) as u8
    }
}

/// The higher hex digit of a byte.
pub open spec fn high_digit(byte: u8) -> u8 {
    digit_of(byte as int / 16)
}

/// The lower hex digit of a byte.
pub open spec fn low_digit(byte: u8) -> u8 {
    digit_of(byte as int % 16)
}

/// The text is an even number of hex digits.
pub open spec fn is_hex(text: Seq<u8>) -> bool {
    &&& text.len() % 2 == 0
    &&& forall|index: int| 0 <= index < text.len() ==> digit_value(#[trigger] text[index]).is_some()
}

/// The bytes that a text of hex digits stands for, two digits to the byte,
/// the higher digit first.
pub open spec fn hex_decoded(text: Seq<u8>) -> Seq<u8> {
    Seq::new(
        text.len() / 2,
        |index: int|
            (16 * digit_value(text[2 * index]).unwrap() + digit_value(
                text[2 * index + 1],
            ).unwrap()) as u8,
    )
}

/// The lower-case hex digits of the bytes, two to the byte, the higher digit
/// first.
pub open spec fn hex_encoded(bytes: Seq<u8>) -> Seq<u8> {
    Seq::new(
        2 * bytes.len(),
        |index: int|
            if index % 2 == 0 {
                high_digit(bytes[index / 2])
            } else {
                low_digit(bytes[index / 2])
            },
    )
}

/// Why a text is not a color.
#[derive(Debug, PartialEq, Eq, Clone, Copy, Structural)]
pub enum ColorError {
    /// The text has fewer than seven bytes.
    TooShort,
    /// The text does not start with `#`.
    MissingHash,
    /// What follows the `#` is not an even number of hex digits.
    InvalidHex,
    /// The digits stand for fewer than three or more than four bytes.
    WrongByteCount,
}

/// The red, green, blue and alpha of a color.
pub struct ColorChannels {
    pub r: u8,
    pub g: u8,
    pub b: u8,
    pub a: u8,
}

impl ColorChannels {
    /// The four channels in the order red, green, blue, alpha.
    pub open spec fn bytes(self) -> Seq<u8> {
        seq![self.r, self.g, self.b, self.a]
    }

    /// The color written out: a `#` and the eight hex digits of the four
    /// channels.
    pub open spec fn text(self) -> Seq<u8> {
        seq![35u8] + hex_encoded(self.bytes())
    }
}

/// The color that a text stands for, or why it stands for none. The checks
/// are made in the order of the errors. Three bytes are red, green and blue
/// of an opaque color; a fourth is the alpha.
pub open spec fn parsed_color(text: Seq<u8>) -> Result<ColorChannels, ColorError> {
    if text.len() < 7 {
        Err(ColorError::TooShort)
    } else if text[0] != 35 {
        Err(ColorError::MissingHash)
    } else if !is_hex(text.subrange(1, text.len() as int)) {
        Err(ColorError::InvalidHex)
    } else {
        let values = hex_decoded(text.subrange(1, text.len() as int));
        if values.len() < 3 || values.len() > 4 {
            Err(ColorError::WrongByteCount)
        } else {
            Ok(
                ColorChannels {
                    r: values[0],
                    g: values[1],
                    b: values[2],
                    a: if values.len() == 3 {
                        0xff
                    } else {
                        values[3]
                    },
                },
            )
        }
    }
}

/// Calls `hex::decode`, which succeeds on an even number of hex digits,
/// upper or lower case, and then gives the byte of each pair of digits, the
/// higher digit first. On any other text it fails.
#[verifier::external_body]
fn decode(text: &[u8]) -> (decoded: Result<Vec<u8>, hex::FromHexError>)
    ensures
        decoded.is_ok() == is_hex(text@),
        decoded matches Ok(bytes) ==> bytes@ == hex_decoded(text@),
{
    hex::decode(text)
}

/// Calls `hex::encode`, which gives the two lower-case hex digits of each
/// byte, the higher digit first.
#[verifier::external_body]
fn encode(bytes: Vec<u8>) -> (text: String)
    ensures
        text@ == hex_encoded(bytes@).map_values(|byte: u8| byte as char),
{
    hex::encode(bytes)
}

/// An RGBA color
#[derive(Debug, PartialEq, Eq, Clone, Copy)]
pub struct Color {
    r: u8,
    g: u8,
    b: u8,
    a: u8,
}

impl View for Color {
    type V = ColorChannels;

    closed spec fn view(&self) -> ColorChannels {
        ColorChannels { r: self.r, g: self.g, b: self.b, a: self.a }
    }
}

impl Color {
    /// The color with the given channels.
    pub fn new(r: u8, g: u8, b: u8, a: u8) -> (color: Color)
        ensures
            color@ == (ColorChannels { r, g, b, a }),
    {
        Color { r, g, b, a }
    }

    /// The red channel.
    pub fn r(&self) -> (r: u8)
        ensures
            r == self@.r,
    {
        self.r
    }

    /// The green channel.
    pub fn g(&self) -> (g: u8)
        ensures
            g == self@.g,
    {
        self.g
    }

    /// The blue channel.
    pub fn b(&self) -> (b: u8)
        ensures
            b == self@.b,
    {
        self.b
    }

    /// The alpha channel.
    pub fn a(&self) -> (a: u8)
        ensures
            a == self@.a,
    {
        self.a
    }

    /// Converts a 3-or-4 byte rgb(a) hex string into a Color, or says why
    /// the string is none.
    pub fn parse(hex_str: &str) -> (parsed: Result<Color, ColorError>)
        ensures
            match parsed {
                Ok(color) => parsed_color(hex_str.spec_bytes()) == Ok::<ColorChannels, ColorError>(
                    color@,
                ),
                Err(error) => parsed_color(hex_str.spec_bytes()) == Err::<
                    ColorChannels,
                    ColorError,
                >(error),
            },
    {
        let text = hex_str.as_bytes();
        if text.len() < 7 {
            return Err(ColorError::TooShort);
        }
        if text[0] != 35 {
            return Err(ColorError::MissingHash);
        }
        let decoded_values = match decode(slice_subrange(text, 1, text.len())) {
            Ok(values) => values,
            Err(_) => {
                return Err(ColorError::InvalidHex);
            },
        };
        let num_values = decoded_values.len();
        if num_values < 3 || num_values > 4 {
            return Err(ColorError::WrongByteCount);
        }
        Ok(
            Color {
                r: decoded_values[0],
                g: decoded_values[1],
                b: decoded_values[2],
                a: if num_values == 3 {
                    0xff
                } else {
                    decoded_values[3]
                },
            },
        )
    }

    /// Converts a 3-or-4 byte rgb(a) hex string into a Color
    pub fn from_hex_str(hex_str: &str) -> (color: Color)
        requires
            parsed_color(hex_str.spec_bytes()).is_ok(),
        ensures
            parsed_color(hex_str.spec_bytes()) == Ok::<ColorChannels, ColorError>(color@),
    {
        match Color::parse(hex_str) {
            Ok(color) => color,
            Err(_) => unreached(),
        }
    }

    /// The color written out: a `#` and the eight lower-case hex digits of
    /// red, green, blue and alpha.
    pub fn to_string(&self) -> (text: String)
        ensures
            text@ == self@.text().map_values(|byte: u8| byte as char),
    {
        let channels = vec![self.r, self.g, self.b, self.a];
        assert(channels@ =~= self@.bytes());
        let digits = encode(channels);
        let mut text = String::from_str("#");
        text.append(digits.as_str());
        proof {
            reveal_strlit("#");
            assert(text@ =~= self@.text().map_values(|byte: u8| byte as char));
        }
        text
    }
}

/// A hex digit stands for the value that it is the digit of.
pub proof fn lemma_digit_round_trip(value: int)
    requires
        0 <= value < 16,
    ensures
        digit_value(digit_of(value)) == Some(value),
{
}

/// The hex digits of bytes are hex, and stand for the bytes.
pub proof fn lemma_hex_round_trip(bytes: Seq<u8>)
    ensures
        is_hex(hex_encoded(bytes)),
        hex_decoded(hex_encoded(bytes)) == bytes,
{
    let text = hex_encoded(bytes);
    assert forall|index: int| 0 <= index < text.len() implies digit_value(
        #[trigger] text[index],
    ).is_some() by {
        lemma_digit_round_trip(bytes[index / 2] as int / 16);
        lemma_digit_round_trip(bytes[index / 2] as int % 16);
    }
    assert forall|index: int| 0 <= index < bytes.len() implies hex_decoded(text)[index]
        == bytes[index] by {
        lemma_digit_round_trip(bytes[index] as int / 16);
        lemma_digit_round_trip(bytes[index] as int % 16);
        assert(text[2 * index] == high_digit(bytes[(2 * index) / 2]));
        assert(text[2 * index + 1] == low_digit(bytes[(2 * index + 1) / 2]));
    }
    assert(hex_decoded(text) =~= bytes);
}

/// A color that is written out and read again is the same color.
pub proof fn lemma_color_round_trip(color: ColorChannels)
    ensures
        parsed_color(color.text()) == Ok::<ColorChannels, ColorError>(color),
{
    let text = color.text();
    let digits = text.subrange(1, text.len() as int);
    assert(digits =~= hex_encoded(color.bytes()));
    lemma_hex_round_trip(color.bytes());
}

} // verus!
