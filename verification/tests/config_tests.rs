use twitchcat::color::{Rgb, color_parse_is_safe};
use twitchcat::config::{AppConfig, ConfigChannel, Credentials};

fn channel(name: &str, color: &str) -> ConfigChannel {
    ConfigChannel { name: name.to_string(), color: color.to_string() }
}

#[test]
fn credentials_fall_back_to_anonymous() {
    let c = Credentials::from_env_values(None, None);
    assert_eq!(c.username, "justinfan1234");
    assert_eq!(c.token, "justinfan1234");
    let c = Credentials::from_env_values(Some("me".to_string()), None);
    assert_eq!(c.username, "me");
    assert_eq!(c.token, "justinfan1234");
}

#[test]
fn default_app_config() {
    let a = AppConfig::default_with(Credentials::from_env_values(None, None));
    assert_eq!(a.channels.len(), 2);
    assert_eq!(a.channels[0].name, "museun");
    assert_eq!(a.channels[0].color, "#FF0000");
    assert_eq!(a.channels[1].name, "strager");
    assert_eq!(a.channels[1].color, "#400080");
    let red = a.channels.into_iter().next().unwrap().to_twitch_channel();
    assert_eq!(red.color, Rgb { r: 255, g: 0, b: 0 });
}

#[test]
fn configured_colors() {
    let c = channel("x", "#8A2BE2");
    assert!(c.has_valid_color());
    let t = c.to_twitch_channel();
    assert_eq!(t.name, "x");
    assert_eq!(t.color, Rgb { r: 0x8A, g: 0x2B, b: 0xE2 });
    assert_eq!(*t.msg_rate, 0);

    let named = channel("y", "Blue").to_twitch_channel();
    assert_eq!(named.color, Rgb { r: 0, g: 0, b: 255 });

    let bad = channel("z", "not a colour");
    assert!(!bad.has_valid_color());
    assert_eq!(bad.to_twitch_channel().color, Rgb { r: 255, g: 255, b: 255 });
}

#[test]
fn with_parsed_color_cases() {
    let c = channel("x", "whatever").with_parsed_color(Some(Rgb { r: 1, g: 2, b: 3 }));
    assert_eq!(c.color, Rgb { r: 1, g: 2, b: 3 });
    let d = channel("x", "whatever").with_parsed_color(None);
    assert_eq!(d.color, Rgb { r: 255, g: 255, b: 255 });
}

#[test]
fn colour_parse_safety() {
    assert!(color_parse_is_safe("Blue"));
    assert!(color_parse_is_safe("#FF0000"));
    assert!(color_parse_is_safe("Blue Violet"));
    assert!(color_parse_is_safe("sea_GREEN\u{e9}"));
    assert!(color_parse_is_safe("\u{e9}aB"));
    assert!(!color_parse_is_safe("\u{e9}A"));
    assert!(!color_parse_is_safe("a\u{e9}B"));
    assert!(color_parse_is_safe(""));
}
