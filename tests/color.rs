use sketchkit::color::{Color, ColorError};

fn unit(c: u8) -> f64 {
    c as f64 / 255.0
}

#[test]
fn test_rgb_int() {
    let c = Color::rgb_int(255, 0, 0);
    assert_eq!(unit(c.r), 1.0);
    assert_eq!(unit(c.g), 0.0);
    assert_eq!(unit(c.b), 0.0);
    assert_eq!(unit(c.a), 1.0);

    let c = Color::rgba_int(255, 0, 0, 255);
    assert_eq!(unit(c.r), 1.0);
    assert_eq!(unit(c.g), 0.0);
    assert_eq!(unit(c.b), 0.0);
    assert_eq!(unit(c.a), 1.0);
}

#[test]
fn test_from_int() {
    let c = Color::from_int(0xff0000);
    assert_eq!(unit(c.r), 1.0);
    assert_eq!(unit(c.g), 0.0);
    assert_eq!(unit(c.b), 0.0);
    assert_eq!(unit(c.a), 0.0);

    let c = Color::from_int(0xffff0000);
    assert_eq!(unit(c.r), 1.0);
    assert_eq!(unit(c.g), 0.0);
    assert_eq!(unit(c.b), 0.0);
    assert_eq!(unit(c.a), 1.0);
}

#[test]
fn test_from_string() {
    let c = Color::from_string("#ff0000").unwrap();
    assert_eq!(unit(c.r), 1.0);
    assert_eq!(unit(c.g), 0.0);
    assert_eq!(unit(c.b), 0.0);
    assert_eq!(unit(c.a), 1.0);

    let c = Color::from_string("#00ff00").unwrap();
    assert_eq!(unit(c.r), 0.0);
    assert_eq!(unit(c.g), 1.0);
    assert_eq!(unit(c.b), 0.0);
    assert_eq!(unit(c.a), 1.0);

    let c = Color::from_string("#00ff0000").unwrap();
    assert_eq!(unit(c.r), 0.0);
    assert_eq!(unit(c.g), 1.0);
    assert_eq!(unit(c.b), 0.0);
    assert_eq!(unit(c.a), 0.0);

    let c = Color::from_string("#ffffffff").unwrap();
    assert_eq!(unit(c.r), 1.0);
    assert_eq!(unit(c.g), 1.0);
    assert_eq!(unit(c.b), 1.0);
    assert_eq!(unit(c.a), 1.0);

    let c = Color::from_string("#FFFFFFFF").unwrap();
    assert_eq!(unit(c.r), 1.0);
    assert_eq!(unit(c.g), 1.0);
    assert_eq!(unit(c.b), 1.0);
    assert_eq!(unit(c.a), 1.0);

    let c = Color::from_string("red").unwrap();
    assert_eq!(unit(c.r), 1.0);
    assert_eq!(unit(c.g), 0.0);
    assert_eq!(unit(c.b), 0.0);
    assert_eq!(unit(c.a), 1.0);

    let c = Color::from_string("lime").unwrap();
    assert_eq!(unit(c.r), 0.0);
    assert_eq!(unit(c.g), 1.0);
    assert_eq!(unit(c.b), 0.0);
    assert_eq!(unit(c.a), 1.0);

    let c = Color::from_string("blue").unwrap();
    assert_eq!(unit(c.r), 0.0);
    assert_eq!(unit(c.g), 0.0);
    assert_eq!(unit(c.b), 1.0);
    assert_eq!(unit(c.a), 1.0);

    let c = Color::from_string("yellow").unwrap();
    assert_eq!(unit(c.r), 1.0);
    assert_eq!(unit(c.g), 1.0);
    assert_eq!(unit(c.b), 0.0);
    assert_eq!(unit(c.a), 1.0);

    // bad color = black
    let c = Color::from_string("foo").unwrap();
    assert_eq!(unit(c.r), 0.0);
    assert_eq!(unit(c.g), 0.0);
    assert_eq!(unit(c.b), 0.0);
    assert_eq!(unit(c.a), 1.0);
}

#[test]
fn test_greys() {
    let c = Color::grey_int(255);
    assert_eq!(unit(c.r), 1.0);
    assert_eq!(unit(c.g), 1.0);
    assert_eq!(unit(c.b), 1.0);
    assert_eq!(unit(c.a), 1.0);
}

#[test]
fn hex_red_and_unknown_name() {
    assert_eq!(Color::from_string("#ff0000"), Ok(Color { r: 255, g: 0, b: 0, a: 255 }));
    assert_eq!(Color::from_string("notacolor"), Ok(Color { r: 0, g: 0, b: 0, a: 255 }));
}

#[test]
fn hex_digits_are_read_in_order() {
    assert_eq!(Color::from_string("#12aB9c"), Ok(Color { r: 0x12, g: 0xab, b: 0x9c, a: 255 }));
    assert_eq!(Color::from_string("#80102030"), Ok(Color { r: 0x80, g: 0x10, b: 0x20, a: 0x30 }));
    assert_eq!(Color::from_string("#ff000080"), Ok(Color { r: 255, g: 0, b: 0, a: 0x80 }));
}

#[test]
fn short_hex_keeps_zero_alpha() {
    assert_eq!(Color::from_string("#fff"), Ok(Color { r: 0, g: 0x0f, b: 0xff, a: 0 }));
}

#[test]
fn malformed_hex_is_an_error() {
    assert_eq!(Color::from_string("#"), Err(ColorError::InvalidHex));
    assert_eq!(Color::from_string("#12345g"), Err(ColorError::InvalidHex));
    assert_eq!(Color::from_string("#-12345"), Err(ColorError::InvalidHex));
    assert_eq!(Color::from_string("#123456789"), Err(ColorError::InvalidHex));
}

#[test]
fn names_are_case_sensitive() {
    assert_eq!(Color::from_named_string("Red"), Color { r: 0, g: 0, b: 0, a: 255 });
    assert_eq!(Color::from_named_string("red"), Color { r: 255, g: 0, b: 0, a: 255 });
    assert_eq!(Color::from_named_string("cornflowerblue"), Color { r: 100, g: 149, b: 237, a: 255 });
    assert_eq!(Color::from_string(""), Ok(Color { r: 0, g: 0, b: 0, a: 255 }));
}

#[test]
fn grey_int_is_opaque() {
    assert_eq!(Color::grey_int(255), Color { r: 255, g: 255, b: 255, a: 255 });
    assert_eq!(Color::grey_int(7), Color { r: 7, g: 7, b: 7, a: 255 });
}
