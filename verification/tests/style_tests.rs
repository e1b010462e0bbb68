use heprint::json::{JsonValue, Number};
use heprint::style::{parse_color, PrintStyle};

#[test]
fn test_parse_hex_color() {
    assert_eq!(parse_color("#FF0000"), Some([255, 0, 0]));
    assert_eq!(parse_color("#00ff00"), Some([0, 255, 0]));
}

#[test]
fn test_parse_named_color() {
    assert_eq!(parse_color("red"), Some([255, 0, 0]));
    assert_eq!(parse_color("BLUE"), Some([0, 0, 255]));
}

#[test]
fn test_set_font_size() {
    let mut s = PrintStyle::new();
    s.set("FontSize", &JsonValue::Number(Number::Float(14.0f64.to_bits()))).unwrap();
    assert_eq!(s.font_size, Some(Number::Float(14.0f64.to_bits())));
}
