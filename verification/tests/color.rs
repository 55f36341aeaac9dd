use photosquid::color::hex_or_black;
use photosquid::raster_color::RasterColor;

#[test]
fn hex_or_black_reads_a_color() {
    assert_eq!(hex_or_black("#7289DA"), RasterColor::new(0x72, 0x89, 0xDA, 255));
    assert_eq!(hex_or_black("#2C2F33FF"), RasterColor::new(0x2C, 0x2F, 0x33, 255));
    assert_eq!(hex_or_black("#01020304"), RasterColor::new(1, 2, 3, 4));
}

#[test]
fn hex_or_black_falls_back_to_black() {
    assert_eq!(hex_or_black("#zz0000"), RasterColor::new(0, 0, 0, 255));
    assert_eq!(hex_or_black("red"), RasterColor::new(0, 0, 0, 255));
}

#[test]
fn hex_or_black_agrees_with_raster_color_hex() {
    for hex in ["#123456", "#abcdef12", "#+1+2+3", "#12345", "#1234567g"] {
        let expected = RasterColor::hex(hex).unwrap_or(RasterColor::new(0, 0, 0, 255));
        assert_eq!(hex_or_black(hex), expected);
    }
}

#[test]
fn alpha_defaults_to_opaque() {
    assert_eq!(RasterColor::hex("#102030").unwrap(), RasterColor::hex("#102030FF").unwrap());
}
