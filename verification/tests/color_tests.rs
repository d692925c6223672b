use ghostty_styles::color::HslColor;
use ghostty_styles::theme::GhosttyConfig;

#[test]
fn hsl_round_trip_rgb() {
    // Pure red
    let c = HslColor::new(0, 10000, 5000);
    let (r, g, b) = c.to_rgb();
    assert_eq!((r, g, b), (255, 0, 0));
    let back = HslColor::from_rgb(r, g, b);
    assert!((back.h as i64 - 0).abs() < 100);
    assert!((back.s as i64 - 10000).abs() < 100);
    assert!((back.l as i64 - 5000).abs() < 100);
}

#[test]
fn hsl_round_trip_hex() {
    let c = HslColor::new(12000, 10000, 5000);
    assert_eq!(c.to_hex(), "#00ff00");

    let parsed = HslColor::from_hex("#00ff00").unwrap();
    assert!((parsed.h as i64 - 12000).abs() < 100);
    assert!((parsed.s as i64 - 10000).abs() < 100);
    assert!((parsed.l as i64 - 5000).abs() < 100);
}

#[test]
fn hsl_white_and_black() {
    let white = HslColor::new(0, 0, 10000);
    assert_eq!(white.to_rgb(), (255, 255, 255));

    let black = HslColor::new(0, 0, 0);
    assert_eq!(black.to_rgb(), (0, 0, 0));
}

#[test]
fn hsl_gray() {
    let gray = HslColor::new(0, 0, 5000);
    let (r, g, b) = gray.to_rgb();
    assert_eq!(r, g);
    assert_eq!(g, b);
    assert_eq!(r, 128);
}

#[test]
fn from_hex_invalid() {
    assert!(HslColor::from_hex("xyz").is_none());
    assert!(HslColor::from_hex("#ff").is_none());
    assert!(HslColor::from_hex("").is_none());
}

#[test]
fn hsl_clamping() {
    let c = HslColor::new(40000, 15000, -1000);
    assert_eq!(c.h, 4000);
    assert_eq!(c.s, 10000);
    assert_eq!(c.l, 0);
}

#[test]
fn from_hex_pure_red_components() {
    let c = HslColor::from_hex("#ff0000").unwrap();
    assert!((c.h as i64 - 0).abs() < 100);
    assert!((c.s as i64 - 10000).abs() < 100);
    assert!((c.l as i64 - 5000).abs() < 100);
}

#[test]
fn to_hex_white_and_black() {
    assert_eq!(HslColor::new(0, 0, 10000).to_hex(), "#ffffff");
    assert_eq!(HslColor::new(0, 0, 0).to_hex(), "#000000");
}

#[test]
fn to_hex_lowercase_padded() {
    let c = HslColor::from_hex("#0a0B0c").unwrap();
    assert_eq!(c.to_hex(), "#0a0b0c");
}

#[test]
fn from_hex_without_hash() {
    let c = HslColor::from_hex("ff00aa");
    assert!(c.is_some());
}

#[test]
fn from_hex_rejects_double_hash() {
    assert!(HslColor::from_hex("##ff0000").is_none());
}

#[test]
fn rgb_round_trip_grid() {
    // The RGB-level round trip: converting an HSL color to RGB, back to
    // HSL and to RGB again lands on the same triple, across a grid of
    // hues, saturations and lightnesses.
    let mut h: i64 = 0;
    while h < 36000 {
        let mut s: i64 = 0;
        while s <= 10000 {
            let mut l: i64 = 0;
            while l <= 10000 {
                let c = HslColor::new(h, s, l);
                let rgb = c.to_rgb();
                let back = HslColor::from_rgb(rgb.0, rgb.1, rgb.2);
                assert_eq!(back.to_rgb(), rgb);
                l += 700;
            }
            s += 700;
        }
        h += 2100;
    }
}

#[test]
fn parse_hex_valid_with_hash() {
    assert_eq!(GhosttyConfig::parse_hex("#ff00aa"), Some((255, 0, 170)));
}

#[test]
fn parse_hex_valid_without_hash() {
    assert_eq!(GhosttyConfig::parse_hex("ff00aa"), Some((255, 0, 170)));
}

#[test]
fn parse_hex_black() {
    assert_eq!(GhosttyConfig::parse_hex("#000000"), Some((0, 0, 0)));
}

#[test]
fn parse_hex_white() {
    assert_eq!(GhosttyConfig::parse_hex("#ffffff"), Some((255, 255, 255)));
}

#[test]
fn parse_hex_invalid_length() {
    assert_eq!(GhosttyConfig::parse_hex("#fff"), None);
}

#[test]
fn parse_hex_invalid_chars() {
    assert_eq!(GhosttyConfig::parse_hex("#gggggg"), None);
}

#[test]
fn parse_hex_empty() {
    assert_eq!(GhosttyConfig::parse_hex(""), None);
}
