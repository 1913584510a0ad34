use twitchcat::color::Rgb;
use twitchcat::text::{colored_string, decimal_string, paint};

#[test]
fn decimal_values() {
    assert_eq!(decimal_string(0), "0");
    assert_eq!(decimal_string(7), "7");
    assert_eq!(decimal_string(10), "10");
    assert_eq!(decimal_string(255), "255");
    assert_eq!(decimal_string(1234567890), "1234567890");
    assert_eq!(decimal_string(u64::MAX), u64::MAX.to_string());
}

#[test]
fn paint_and_colored() {
    let c = Rgb { r: 12, g: 0, b: 255 };
    assert_eq!(paint(c, "hi"), "\x1b[38;2;12;0;255mhi\x1b[0m");
    assert_eq!(
        colored_string(&"strager".to_string(), Rgb { r: 0x40, g: 0, b: 0x80 }),
        "[#\x1b[38;2;64;0;128mstrager\x1b[0m]"
    );
}
