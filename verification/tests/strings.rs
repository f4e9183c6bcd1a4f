use colorvalue::css::rgb_string;
use colorvalue::css::rgba_string;
use colorvalue::hex::hex_string;

#[test]
fn hex_string_opaque_red() {
    assert_eq!(hex_string(255, 0, 0, 255), "#ff0000");
}

#[test]
fn hex_string_translucent_red() {
    assert_eq!(hex_string(255, 0, 0, 128), "#ff000080");
}

#[test]
fn hex_string_translucent_pale_yellow() {
    assert_eq!(hex_string(255, 255, 128, 128), "#ffff8080");
}

#[test]
fn hex_string_black() {
    assert_eq!(hex_string(0, 0, 0, 255), "#000000");
}

#[test]
fn hex_string_zero_alpha() {
    assert_eq!(hex_string(0, 255, 0, 0), "#00ff0000");
}

#[test]
fn hex_string_low_digits() {
    assert_eq!(hex_string(0x01, 0x23, 0x45, 0x67), "#01234567");
}

#[test]
fn hex_string_high_digits() {
    assert_eq!(hex_string(0x89, 0xab, 0xcd, 0xef), "#89abcdef");
}

#[test]
fn rgb_string_red() {
    assert_eq!(rgb_string(255, 0, 0), "rgb(255,0,0)");
}

#[test]
fn rgb_string_every_width() {
    assert_eq!(rgb_string(7, 42, 100), "rgb(7,42,100)");
}

#[test]
fn rgb_string_decimal_boundaries() {
    assert_eq!(rgb_string(9, 10, 99), "rgb(9,10,99)");
    assert_eq!(rgb_string(100, 255, 0), "rgb(100,255,0)");
}

#[test]
fn rgba_string_half_alpha() {
    assert_eq!(rgba_string(0, 255, 0, "0.5"), "rgba(0,255,0,0.5)");
}

#[test]
fn rgba_string_keeps_alpha_text() {
    assert_eq!(rgba_string(12, 34, 56, "0.25"), "rgba(12,34,56,0.25)");
}
