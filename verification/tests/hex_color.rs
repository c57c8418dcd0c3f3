use cadrum::color::{hsv_sector_terms, parse_hex_bytes, HsvTerm, Rgb};
use cadrum::error::Error;

#[test]
fn from_hex_six_digits() {
    assert_eq!(Rgb::from_hex("#ff8800"), Ok(Rgb { r: 255, g: 136, b: 0 }));
    assert_eq!(Rgb::from_hex("#4a90d9"), Ok(Rgb { r: 0x4a, g: 0x90, b: 0xd9 }));
    assert_eq!(Rgb::from_hex("#E67E22"), Ok(Rgb { r: 0xe6, g: 0x7e, b: 0x22 }));
}

#[test]
fn from_hex_three_digits_doubles_each() {
    assert_eq!(Rgb::from_hex("#f80"), Ok(Rgb { r: 255, g: 136, b: 0 }));
    assert_eq!(Rgb::from_hex("#abc"), Rgb::from_hex("#aabbcc"));
    assert_eq!(Rgb::from_hex("#000"), Ok(Rgb { r: 0, g: 0, b: 0 }));
}

#[test]
fn from_hex_rejects_missing_hash() {
    assert_eq!(Rgb::from_hex("ff8800"), Err(Error::InvalidHexColor));
    assert_eq!(Rgb::from_hex(""), Err(Error::InvalidHexColor));
}

#[test]
fn from_hex_rejects_bad_digits() {
    assert_eq!(Rgb::from_hex("#ff88zz"), Err(Error::InvalidHexColor));
    assert_eq!(Rgb::from_hex("#ff 800"), Err(Error::InvalidHexColor));
    assert_eq!(Rgb::from_hex("#ééé"), Err(Error::InvalidHexColor));
}

#[test]
fn from_hex_rejects_wrong_length() {
    assert_eq!(Rgb::from_hex("#"), Err(Error::InvalidHexColor));
    assert_eq!(Rgb::from_hex("#ff88"), Err(Error::InvalidHexColor));
    assert_eq!(Rgb::from_hex("#ff88001"), Err(Error::InvalidHexColor));
    assert_eq!(Rgb::from_hex("#ff880011"), Err(Error::InvalidHexColor));
}

#[test]
fn parse_hex_bytes_matches_from_hex() {
    assert_eq!(parse_hex_bytes(b"#123456"), Ok(Rgb { r: 0x12, g: 0x34, b: 0x56 }));
    assert_eq!(parse_hex_bytes(b"#123"), Ok(Rgb { r: 0x11, g: 0x22, b: 0x33 }));
}

#[test]
fn hsv_sectors() {
    assert_eq!(hsv_sector_terms(0), (HsvTerm::V, HsvTerm::T, HsvTerm::P));
    assert_eq!(hsv_sector_terms(1), (HsvTerm::Q, HsvTerm::V, HsvTerm::P));
    assert_eq!(hsv_sector_terms(2), (HsvTerm::P, HsvTerm::V, HsvTerm::T));
    assert_eq!(hsv_sector_terms(3), (HsvTerm::P, HsvTerm::Q, HsvTerm::V));
    assert_eq!(hsv_sector_terms(4), (HsvTerm::T, HsvTerm::P, HsvTerm::V));
    assert_eq!(hsv_sector_terms(5), (HsvTerm::V, HsvTerm::P, HsvTerm::Q));
    assert_eq!(hsv_sector_terms(6), (HsvTerm::V, HsvTerm::T, HsvTerm::P));
    assert_eq!(hsv_sector_terms(13), (HsvTerm::Q, HsvTerm::V, HsvTerm::P));
}
