use vstd::prelude::*;
use vstd::string::StringSliceAdditionalSpecFns;
use crate::raster_color::{hex_color, hex_splits_a_character, RasterColor};

verus! {

/// Parses `#RRGGBB` or `#RRGGBBAA` with the `raster` crate's `Color::hex`.
///
/// The crate's source reads the string exactly as `RasterColor::hex` does (byte length 7
/// or 9, a leading `#`, each component parsed by `u8::from_str_radix(_, 16)`, alpha 255
/// when absent) and panics where that one does, when a component would be cut out of the
/// middle of a character. The contract claims that the color it returns is the one
/// `hex_color` describes, and that it fails exactly when `hex_color` has no color; why it
/// failed is dropped.
#[verifier::external_body]
fn raster_color_hex(hex: &str) -> (parsed: Option<RasterColor>)
    requires
        !hex_splits_a_character(hex.spec_bytes()),
    ensures
        parsed == match hex_color(hex.spec_bytes()) {
            Some(Some(color)) => Some(color),
            _ => None,
        },
{
    match raster::Color::hex(hex) {
        Ok(color) => Some(RasterColor { r: color.r, g: color.g, b: color.b, a: color.a }),
        Err(_) => None,
    }
}

/// Opaque black.
pub open spec fn black() -> RasterColor {
    RasterColor { r: 0, g: 0, b: 0, a: 255 }
}

/// The 8-bit components of the color that `#RRGGBB` or `#RRGGBBAA` denotes, or opaque
/// black when the string is not such a color.
pub fn hex_or_black(hex: &str) -> (color: RasterColor)
    requires
        !hex_splits_a_character(hex.spec_bytes()),
    ensures
        color == match hex_color(hex.spec_bytes()) {
            Some(Some(parsed)) => parsed,
            _ => black(),
        },
{
    match raster_color_hex(hex) {
        Some(color) => color,
        None => RasterColor { r: 0, g: 0, b: 0, a: 255 },
    }
}

} // verus!
