use image::Rgba;
use pix2svg::text::{digit, push_decimal, push_hex_byte, push_opacity};
use pix2svg::{Color, Rectangle};

#[test]
fn new_keeps_the_channels() {
    let c = Color::new(1, 2, 3, 4);
    assert_eq!((c.r, c.g, c.b, c.a), (1, 2, 3, 4));
}

#[test]
fn from_rgba_reads_the_channels_in_order() {
    let c = Color::from_rgba(&Rgba([10, 20, 30, 40]));
    assert_eq!(c, Color { r: 10, g: 20, b: 30, a: 40 });
}

#[test]
fn colors_are_equal_when_all_channels_are() {
    assert_eq!(Color::new(1, 2, 3, 4), Color::new(1, 2, 3, 4));
    assert_ne!(Color::new(1, 2, 3, 4), Color::new(1, 2, 3, 5));
    assert_ne!(Color::new(1, 2, 3, 4), Color::new(0, 2, 3, 4));
}

#[test]
fn is_transparent_is_strict() {
    let c = Color::new(0, 0, 0, 100);
    assert!(c.is_transparent(101));
    assert!(!c.is_transparent(100));
    assert!(!c.is_transparent(0));
    assert!(!Color::new(0, 0, 0, 0).is_transparent(0));
    assert!(Color::new(0, 0, 0, 0).is_transparent(1));
    assert!(Color::new(0, 0, 0, 254).is_transparent(255));
    assert!(!Color::new(0, 0, 0, 255).is_transparent(255));
}

#[test]
fn to_hex_is_six_upper_case_digits() {
    assert_eq!(Color::new(255, 0, 0, 255).to_hex(), "FF0000");
    assert_eq!(Color::new(0, 0, 0, 0).to_hex(), "000000");
    assert_eq!(Color::new(1, 10, 171, 7).to_hex(), "010AAB");
    assert_eq!(Color::new(0xde, 0xad, 0x9f, 0).to_hex(), "DEAD9F");
}

#[test]
fn to_hex_agrees_with_std_formatting() {
    for v in 0..=255u8 {
        let c = Color::new(v, 255 - v, v ^ 0x5a, 3);
        assert_eq!(c.to_hex(), format!("{:02X}{:02X}{:02X}", c.r, c.g, c.b));
    }
}

#[test]
fn digits_are_upper_case_hexadecimal() {
    let all: String = (0..16u8).map(digit).collect();
    assert_eq!(all, "0123456789ABCDEF");
}

#[test]
fn push_decimal_appends_the_numeral() {
    for n in [0u64, 7, 9, 10, 11, 99, 100, 101, 255, 1000, 4294967295, 4294967296, u64::MAX] {
        let mut s = String::from("n=");
        push_decimal(&mut s, n);
        assert_eq!(s, format!("n={}", n));
    }
}

#[test]
fn push_hex_byte_appends_two_digits() {
    let mut s = String::from("#");
    push_hex_byte(&mut s, 0x0f);
    push_hex_byte(&mut s, 0xa0);
    assert_eq!(s, "#0FA0");
}

#[test]
fn push_opacity_has_three_decimals() {
    let cases = [(0u8, "0.000"), (1, "0.004"), (64, "0.251"), (127, "0.498"), (128, "0.502"),
        (254, "0.996"), (255, "1.000")];
    for (alpha, text) in cases {
        let mut s = String::new();
        push_opacity(&mut s, alpha);
        assert_eq!(s, text);
    }
}

#[test]
fn push_opacity_agrees_with_float_formatting() {
    for alpha in 0..=255u8 {
        let mut s = String::new();
        push_opacity(&mut s, alpha);
        assert_eq!(s, format!("{:.3}", alpha as f32 / 255.0), "alpha {}", alpha);
    }
}

#[test]
fn rectangle_new_keeps_the_fields() {
    let r = Rectangle::new(1, 2, 3, 4, Color::new(5, 6, 7, 8));
    assert_eq!((r.x, r.y, r.width, r.height), (1, 2, 3, 4));
    assert_eq!(r.color, Color::new(5, 6, 7, 8));
}

#[test]
fn area_is_width_times_height() {
    assert_eq!(Rectangle::new(0, 0, 3, 4, Color::new(0, 0, 0, 255)).area(), 12);
    assert_eq!(Rectangle::new(9, 9, 0, 4, Color::new(0, 0, 0, 255)).area(), 0);
    assert_eq!(
        Rectangle::new(0, 0, u32::MAX, u32::MAX, Color::new(0, 0, 0, 255)).area(),
        18446744065119617025
    );
}

#[test]
fn opaque_rectangle_has_no_opacity_attribute() {
    let r = Rectangle::new(0, 0, 2, 2, Color::new(255, 0, 0, 255));
    assert_eq!(
        r.to_svg(1),
        "<rect x=\"0\" y=\"0\" width=\"2\" height=\"2\" fill=\"#FF0000\" />"
    );
}

#[test]
fn translucent_rectangle_has_an_opacity_attribute() {
    let r = Rectangle::new(3, 5, 7, 11, Color::new(18, 52, 86, 128));
    assert_eq!(
        r.to_svg(1),
        "<rect x=\"3\" y=\"5\" width=\"7\" height=\"11\" fill=\"#123456\" opacity=\"0.502\" />"
    );
    let clear = Rectangle::new(0, 0, 1, 1, Color::new(0, 0, 0, 0));
    assert_eq!(
        clear.to_svg(1),
        "<rect x=\"0\" y=\"0\" width=\"1\" height=\"1\" fill=\"#000000\" opacity=\"0.000\" />"
    );
}

#[test]
fn to_svg_multiplies_by_the_scale() {
    let r = Rectangle::new(0, 0, 2, 2, Color::new(255, 0, 0, 255));
    assert_eq!(
        r.to_svg(4),
        "<rect x=\"0\" y=\"0\" width=\"8\" height=\"8\" fill=\"#FF0000\" />"
    );
    let r = Rectangle::new(3, 5, 7, 11, Color::new(1, 2, 3, 255));
    assert_eq!(
        r.to_svg(10),
        "<rect x=\"30\" y=\"50\" width=\"70\" height=\"110\" fill=\"#010203\" />"
    );
    assert_eq!(
        r.to_svg(0),
        "<rect x=\"0\" y=\"0\" width=\"0\" height=\"0\" fill=\"#010203\" />"
    );
}

#[test]
fn to_svg_products_are_exact_beyond_32_bits() {
    let r = Rectangle::new(3_000_000, 1, 2, u32::MAX, Color::new(1, 2, 3, 255));
    assert_eq!(
        r.to_svg(3000),
        "<rect x=\"9000000000\" y=\"3000\" width=\"6000\" height=\"12884901885000\" fill=\"#010203\" />"
    );
}

#[test]
fn to_svg_agrees_with_std_formatting() {
    for (i, alpha) in [0u8, 1, 77, 200, 254, 255].into_iter().enumerate() {
        let i = i as u32;
        let r = Rectangle::new(i, 2 * i + 1, 3 * i + 2, i + 9, Color::new(alpha, 17, 250, alpha));
        let scale = 7 + i;
        let mut expected = format!(
            "<rect x=\"{}\" y=\"{}\" width=\"{}\" height=\"{}\" fill=\"#{:02X}{:02X}{:02X}\" ",
            r.x * scale,
            r.y * scale,
            r.width * scale,
            r.height * scale,
            r.color.r,
            r.color.g,
            r.color.b
        );
        if alpha != 255 {
            expected.push_str(&format!("opacity=\"{:.3}\" ", alpha as f32 / 255.0));
        }
        expected.push_str("/>");
        assert_eq!(r.to_svg(scale), expected);
    }
}
