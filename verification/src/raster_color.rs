use vstd::prelude::*;
use vstd::string::StringSliceAdditionalSpecFns;
use vstd::utf8::*;
use std::num::ParseIntError;

verus! {

#[verifier::external_type_specification]
#[verifier::external_body]
pub struct ExParseIntError(ParseIntError);

/// Why a hex color string was refused.
#[derive(Debug)]
pub enum RasterError {
    /// The string is neither `#RRGGBB` nor `#RRGGBBAA` in length and prefix.
    InvalidHex,
    /// One of the two-character components is not a hexadecimal byte.
    HexParse(ParseIntError),
}

/// An 8-bit-per-channel RGBA color.
#[derive(Debug, Clone, Copy, PartialEq, Eq, Structural)]
pub struct RasterColor {
    pub r: u8,
    pub g: u8,
    pub b: u8,
    pub a: u8,
}

/// The ASCII code of `#`.
pub const HASH: u8 = 35;

/// The ASCII code of `+`.
pub const PLUS: u8 = 43;

/// The value of a byte read as a hexadecimal digit (`0-9`, `a-f`, `A-F`), or `None`.
pub open spec fn hex_digit_value(byte: u8) -> Option<int> {
    if 48 <= byte <= 57 {
        Some(byte - 48)
    } else if 97 <= byte <= 102 {
        Some(byte - 87)
    } else if 65 <= byte <= 70 {
        Some(byte - 55)
    } else {
        None
    }
}

/// True when every byte of `digits` is a hexadecimal digit and there is at least one.
pub open spec fn all_hex_digits(digits: Seq<u8>) -> bool {
    &&& digits.len() > 0
    &&& forall|i: int| 0 <= i < digits.len() ==> (#[trigger] hex_digit_value(digits[i])) is Some
}

/// The number that a sequence of hexadecimal digits denotes, most significant first.
pub open spec fn hex_digits_value(digits: Seq<u8>) -> int
    decreases digits.len(),
{
    if digits.len() == 0 {
        0
    } else {
        16 * hex_digits_value(digits.drop_last()) + hex_digit_value(digits.last()).unwrap()
    }
}

/// What `u8::from_str_radix(s, 16)` yields for a string whose UTF-8 bytes are `bytes`:
/// an optional `+` followed by one or more hexadecimal digits whose value fits in a
/// `u8`; anything else is an error (`None`).
pub open spec fn parse_hex_u8(bytes: Seq<u8>) -> Option<u8> {
    let digits = if bytes.len() > 0 && bytes[0] == PLUS { bytes.drop_first() } else { bytes };
    if all_hex_digits(digits) && hex_digits_value(digits) <= 255 {
        Some(hex_digits_value(digits) as u8)
    } else {
        None
    }
}

/// Parses a string as a hexadecimal `u8` with `u8::from_str_radix(s, 16)`.
///
/// Its documentation: the string is an optional `+` sign followed by only digits of
/// the radix (`0-9`, `a-f`, `A-F` for 16); any other character, no digit at all, or a
/// value that does not fit in a `u8` is an error. The contract states that, over the
/// string's UTF-8 bytes (every accepted character is a single ASCII byte). What the
/// error value holds is left unsaid.
#[verifier::external_body]
fn u8_from_str_radix_16(s: &str) -> (parsed: Result<u8, ParseIntError>)
    ensures
        parsed is Ok <==> parse_hex_u8(s.spec_bytes()) is Some,
        parsed matches Ok(v) ==> parse_hex_u8(s.spec_bytes()) == Some(v),
{
    u8::from_str_radix(s, 16)
}

/// Parses one hexadecimal color component.
fn hex_dec(hex_string: &str) -> (parsed: Result<u8, RasterError>)
    ensures
        parsed is Ok <==> parse_hex_u8(hex_string.spec_bytes()) is Some,
        parsed matches Ok(v) ==> parse_hex_u8(hex_string.spec_bytes()) == Some(v),
        parsed matches Err(e) ==> e is HexParse,
{
    match u8_from_str_radix_16(hex_string) {
        Ok(value) => Ok(value),
        Err(error) => Err(RasterError::HexParse(error)),
    }
}


/// True when reading `#RRGGBB` or `#RRGGBBAA` out of the UTF-8 bytes `bytes` would cut a
/// character in two before a component failed to parse: components are cut out and
/// parsed one after another, and each cut must fall on a character boundary.
pub open spec fn hex_splits_a_character(bytes: Seq<u8>) -> bool {
    &&& bytes.len() == 7 || bytes.len() == 9
    &&& bytes[0] == HASH
    &&& {
        ||| is_continuation_byte(bytes[3])
        ||| (hex_component(bytes, 1) is Some && is_continuation_byte(bytes[5]))
        ||| (hex_component(bytes, 1) is Some && hex_component(bytes, 3) is Some && bytes.len() == 9
            && is_continuation_byte(bytes[7]))
    }
}

/// The component that the two bytes starting at `from` denote, if they parse.
pub open spec fn hex_component(bytes: Seq<u8>, from: int) -> Option<u8> {
    parse_hex_u8(bytes.subrange(from, from + 2))
}

/// The color that `#RRGGBB` (alpha 255) or `#RRGGBBAA` in the UTF-8 bytes `bytes`
/// denotes: `None` when the length or prefix does not match, `Some(None)` when a
/// component does not parse.
pub open spec fn hex_color(bytes: Seq<u8>) -> Option<Option<RasterColor>> {
    if (bytes.len() == 9 || bytes.len() == 7) && bytes[0] == HASH {
        let alpha = if bytes.len() == 9 { hex_component(bytes, 7) } else { Some(255u8) };
        if hex_component(bytes, 1) is Some && hex_component(bytes, 3) is Some
            && hex_component(bytes, 5) is Some && alpha is Some {
            Some(
                Some(
                    RasterColor {
                        r: hex_component(bytes, 1).unwrap(),
                        g: hex_component(bytes, 3).unwrap(),
                        b: hex_component(bytes, 5).unwrap(),
                        a: alpha.unwrap(),
                    },
                ),
            )
        } else {
            Some(None)
        }
    } else {
        None
    }
}

/// The substring made of the two bytes of `s` starting at `from`.
fn byte_pair(s: &str, from: usize) -> (pair: &str)
    requires
        1 <= from <= 7,
        from + 2 <= s.spec_bytes().len(),
        !is_continuation_byte(s.spec_bytes()[from as int]),
        from + 2 < s.spec_bytes().len() ==> !is_continuation_byte(s.spec_bytes()[from + 2]),
    ensures
        pair.spec_bytes() == s.spec_bytes().subrange(from as int, from + 2),
{
    let ghost bytes = s.spec_bytes();
    proof {
        encode_utf8_valid_utf8(s@);
        is_char_boundary_start_end_of_seq(bytes);
        if from + 2 < bytes.len() {
            is_char_boundary_iff_not_is_continuation_byte(bytes, from + 2);
        }
    }
    let (head, _) = s.split_at(from + 2);
    proof {
        let head_bytes = head.spec_bytes();
        valid_utf8_split(bytes, from + 2);
        assert(head_bytes == bytes.subrange(0, from + 2));
        assert(head_bytes[from as int] == bytes[from as int]);
        is_char_boundary_iff_not_is_continuation_byte(head_bytes, from as int);
    }
    let (_, pair) = head.split_at(from);
    proof {
        assert(pair.spec_bytes() =~= bytes.subrange(from as int, from + 2));
    }
    pair
}

/// Whether a byte, read at a position of a UTF-8 string, continues a character rather
/// than starting one.
fn continues_a_character(byte: u8) -> (continues: bool)
    ensures
        continues == is_continuation_byte(byte),
{
    0x80 <= byte && byte <= 0xbf
}

/// Whether reading `hex` as `#RRGGBB` or `#RRGGBBAA` would cut a character in two, the
/// inputs that `RasterColor::hex` and `hex_or_black` are not made for.
pub fn hex_cuts_a_character(hex: &str) -> (cuts: bool)
    ensures
        cuts == hex_splits_a_character(hex.spec_bytes()),
{
    let bytes = hex.as_bytes();
    let len = hex.len();
    if !((len == 9 || len == 7) && bytes[0] == HASH) {
        return false;
    }
    let ghost whole = hex.spec_bytes();
    proof {
        encode_utf8_valid_utf8(hex@);
        is_char_boundary_iff_not_is_continuation_byte(whole, 1);
        reveal_with_fuel(is_char_boundary, 2);
        assert(is_char_boundary(whole, 1));
    }
    if continues_a_character(bytes[3]) {
        return true;
    }
    if hex_dec(byte_pair(hex, 1)).is_err() {
        return false;
    }
    if continues_a_character(bytes[5]) {
        return true;
    }
    if hex_dec(byte_pair(hex, 3)).is_err() {
        return false;
    }
    len == 9 && continues_a_character(bytes[7])
}

impl RasterColor {
    pub fn new(r: u8, g: u8, b: u8, a: u8) -> (color: Self)
        ensures
            color == (RasterColor { r, g, b, a }),
    {
        Self { r, g, b, a }
    }

    /// Parses `#RRGGBBAA` or `#RRGGBB` (alpha 255), where each component is two
    /// hexadecimal characters.
    ///
    /// A string of another length (in bytes) or that does not start with `#` is
    /// `InvalidHex`; a component that does not parse is `HexParse`.
    pub fn hex(hex: &str) -> (color: Result<Self, RasterError>)
        requires
            !hex_splits_a_character(hex.spec_bytes()),
        ensures
            hex_color(hex.spec_bytes()) is None <==> color matches Err(RasterError::InvalidHex),
            hex_color(hex.spec_bytes()) == Some(Option::<RasterColor>::None) <==> color matches Err(
                RasterError::HexParse(_),
            ),
            color matches Ok(c) ==> hex_color(hex.spec_bytes()) == Some(Some(c)),
    {
        let bytes = hex.as_bytes();
        let len = hex.len();
        if (len == 9 || len == 7) && bytes[0] == HASH {
            let ghost whole = hex.spec_bytes();
            proof {
                encode_utf8_valid_utf8(hex@);
                is_char_boundary_iff_not_is_continuation_byte(whole, 1);
                reveal_with_fuel(is_char_boundary, 2);
                assert(is_char_boundary(whole, 1));
            }
            let r = hex_dec(byte_pair(hex, 1))?;
            let g = hex_dec(byte_pair(hex, 3))?;
            let b = hex_dec(byte_pair(hex, 5))?;
            let a = if len == 9 {
                hex_dec(byte_pair(hex, 7))?
            } else {
                255
            };
            Ok(RasterColor { r, g, b, a })
        } else {
            Err(RasterError::InvalidHex)
        }
    }
}

/// A `#RRGGBB` string denotes the same color as `#RRGGBBFF`: the alpha of a color given
/// without one is 255.
pub proof fn lemma_alpha_defaults_to_opaque(bytes: Seq<u8>)
    requires
        bytes.len() == 7,
        bytes[0] == HASH,
    ensures
        hex_color(bytes + seq![70u8, 70u8]) == hex_color(bytes),
{
    let full = bytes + seq![70u8, 70u8];
    assert(full.subrange(1, 3) =~= bytes.subrange(1, 3));
    assert(full.subrange(3, 5) =~= bytes.subrange(3, 5));
    assert(full.subrange(5, 7) =~= bytes.subrange(5, 7));
    let alpha = full.subrange(7, 9);
    assert(alpha =~= seq![70u8, 70u8]);
    assert(alpha.drop_last() =~= seq![70u8]);
    assert(alpha.drop_last().drop_last() =~= Seq::<u8>::empty());
    assert(hex_digits_value(alpha.drop_last().drop_last()) == 0);
    assert(hex_digits_value(alpha.drop_last()) == 15);
    assert(hex_digits_value(alpha) == 255);
    assert(all_hex_digits(alpha));
    assert(parse_hex_u8(alpha) == Some(255u8));
}

} // verus!
