use zlaunch::color::{parse_color, Color};

#[test]
fn parses_short_hex() {
    assert_eq!(
        parse_color("#f80"),
        Some(Color { r: 0xff, g: 0x88, b: 0x00, a: 255 })
    );
}

#[test]
fn parses_long_hex() {
    assert_eq!(
        parse_color("#ff8800"),
        Some(Color { r: 0xff, g: 0x88, b: 0x00, a: 255 })
    );
    assert_eq!(
        parse_color("#FF8800CC"),
        Some(Color { r: 0xff, g: 0x88, b: 0x00, a: 0xcc })
    );
}

#[test]
fn rejects_malformed_hex() {
    assert_eq!(parse_color("#ff88"), None);
    assert_eq!(parse_color("#gggggg"), None);
    assert_eq!(parse_color("#"), None);
}

#[test]
fn parses_rgb() {
    assert_eq!(
        parse_color("rgb(255, 128, 0)"),
        Some(Color { r: 255, g: 128, b: 0, a: 255 })
    );
    assert_eq!(
        parse_color("rgb(0,0,0)"),
        Some(Color { r: 0, g: 0, b: 0, a: 255 })
    );
}

#[test]
fn parses_rgba_with_fractional_alpha() {
    assert_eq!(
        parse_color("rgba(255, 0, 0, 0.5)"),
        Some(Color { r: 255, g: 0, b: 0, a: 127 })
    );
    assert_eq!(
        parse_color("rgba(1, 2, 3, 1)"),
        Some(Color { r: 1, g: 2, b: 3, a: 255 })
    );
    assert_eq!(
        parse_color("rgba(1, 2, 3, 0)"),
        Some(Color { r: 1, g: 2, b: 3, a: 0 })
    );
    // Values above one saturate.
    assert_eq!(
        parse_color("rgba(1, 2, 3, 2.5)"),
        Some(Color { r: 1, g: 2, b: 3, a: 255 })
    );
    assert_eq!(
        parse_color("rgba(9, 9, 9, .2)"),
        Some(Color { r: 9, g: 9, b: 9, a: 51 })
    );
}

#[test]
fn rejects_malformed_rgb() {
    assert_eq!(parse_color("rgb(256, 0, 0)"), None);
    assert_eq!(parse_color("rgb(1, 2)"), None);
    assert_eq!(parse_color("rgb(1, 2, x)"), None);
    assert_eq!(parse_color("rgb(1, 2, 3"), None);
    assert_eq!(parse_color("rgba(1, 2, 3, )"), None);
}

#[test]
fn ignores_surrounding_whitespace() {
    assert_eq!(
        parse_color("  #102030  "),
        Some(Color { r: 0x10, g: 0x20, b: 0x30, a: 255 })
    );
}

#[test]
fn rejects_plain_text() {
    assert_eq!(parse_color("hello"), None);
    assert_eq!(parse_color(""), None);
}

#[test]
fn to_hex_opaque_and_translucent() {
    let c = Color { r: 0xff, g: 0x88, b: 0x00, a: 255 };
    assert_eq!(c.to_hex(), "#FF8800");
    let c = Color { r: 0x01, g: 0x2a, b: 0xbc, a: 0x80 };
    assert_eq!(c.to_hex(), "#012ABC80");
}

#[test]
fn hex_round_trip() {
    let c = parse_color("#12ab9C").unwrap();
    assert_eq!(c.to_hex(), "#12AB9C");
}
